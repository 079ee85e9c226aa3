//! The 3x3 board: nine cells, whose turn it is, and who has won.
//!
//! A board is a value. Every operation that looks like a change returns a new
//! board and leaves the old one as it was, so that a search can branch from
//! one position without the branches seeing each other.
//!
//! The rules are stated over `Seq<char>`, the nine cells in row order; the
//! executable methods of [`Board`] are proved against them.

use vstd::prelude::*;
use vstd::slice::{slice_subrange, slice_to_vec};
use vstd::string::*;

verus! {

/// The mark of a cell that nobody has taken.
pub const EMPTY: char = ' ';

/// The mark of the player who moves first.
pub const FIRST: char = 'x';

/// The mark of the player who moves second.
pub const SECOND: char = 'o';

/// Number of cells on the board.
pub const CELLS: usize = 9;

/// How many of the first `n` cells are empty.
pub open spec fn empty_upto(cells: Seq<char>, n: int) -> nat
    decreases n,
{
    if n <= 0 {
        0
    } else {
        empty_upto(cells, n - 1) + if cells[n - 1] == EMPTY {
            1nat
        } else {
            0nat
        }
    }
}

/// How many cells are empty.
pub open spec fn empty_count(cells: Seq<char>) -> nat {
    empty_upto(cells, cells.len() as int)
}

/// How many of the first `n` cells hold a token.
pub open spec fn occupied_upto(cells: Seq<char>, n: int) -> nat
    decreases n,
{
    if n <= 0 {
        0
    } else {
        occupied_upto(cells, n - 1) + if cells[n - 1] != EMPTY {
            1nat
        } else {
            0nat
        }
    }
}

/// How many cells hold a token.
pub open spec fn occupied_count(cells: Seq<char>) -> nat {
    occupied_upto(cells, cells.len() as int)
}

/// The token that the next placement puts down. Nobody stores whose turn it
/// is: an odd number of empty cells means that the first player is to move.
pub open spec fn token_to_play(cells: Seq<char>) -> char {
    if empty_count(cells) % 2 == 1 {
        FIRST
    } else {
        SECOND
    }
}

/// The cells after a placement at `index`: the token to play goes there if
/// the cell is empty, and nothing changes if it is taken.
pub open spec fn placed(cells: Seq<char>, index: int) -> Seq<char> {
    if cells[index] == EMPTY {
        cells.update(index, token_to_play(cells))
    } else {
        cells
    }
}

/// The grid mirrored at its main diagonal: row `r` of the result is column
/// `r` of `cells`.
pub open spec fn transposed(cells: Seq<char>) -> Seq<char> {
    Seq::new(cells.len(), |i: int| cells[(i % 3) * 3 + i / 3])
}

/// A line is won when one token fills it.
pub open spec fn all_same_token(tokens: Seq<char>) -> bool {
    &&& tokens[0] != EMPTY
    &&& forall|k: int| 0 <= k < tokens.len() ==> #[trigger] tokens[k] == tokens[0]
}

/// The three cells of row `r`.
pub open spec fn row(cells: Seq<char>, r: int) -> Seq<char> {
    seq![cells[3 * r], cells[3 * r + 1], cells[3 * r + 2]]
}

/// The three cells of column `c`.
pub open spec fn column(cells: Seq<char>, c: int) -> Seq<char> {
    seq![cells[c], cells[c + 3], cells[c + 6]]
}

/// The diagonal from the top right to the bottom left.
pub open spec fn slash(cells: Seq<char>) -> Seq<char> {
    seq![cells[2], cells[4], cells[6]]
}

/// The diagonal from the top left to the bottom right.
pub open spec fn backslash(cells: Seq<char>) -> Seq<char> {
    seq![cells[0], cells[4], cells[8]]
}

/// The eight lines: rows 0 to 2, then columns 0 to 2, then the slash and the
/// backslash diagonal. This is the order in which a winner is looked for.
pub open spec fn line(cells: Seq<char>, k: int) -> Seq<char> {
    if 0 <= k < 3 {
        row(cells, k)
    } else if 3 <= k < 6 {
        column(cells, k - 3)
    } else if k == 6 {
        slash(cells)
    } else {
        backslash(cells)
    }
}

/// The token of the first won line from `k` on, if any line from there is won.
pub open spec fn winner_from(cells: Seq<char>, k: int) -> Option<char>
    decreases 8 - k,
{
    if k >= 8 {
        None
    } else if all_same_token(line(cells, k)) {
        Some(line(cells, k)[0])
    } else {
        winner_from(cells, k + 1)
    }
}

/// The winner: the token of the first won line, in the order of [`line`].
pub open spec fn winner_of(cells: Seq<char>) -> Option<char> {
    winner_from(cells, 0)
}

/// A game is over when somebody has won or no cell is left.
pub open spec fn game_over(cells: Seq<char>) -> bool {
    winner_of(cells) is Some || empty_count(cells) == 0
}

/// The indices of the empty cells among the first `n`, ascending.
pub open spec fn open_upto(cells: Seq<char>, n: int) -> Seq<i64>
    decreases n,
{
    if n <= 0 {
        Seq::empty()
    } else if cells[n - 1] == EMPTY {
        open_upto(cells, n - 1).push((n - 1) as i64)
    } else {
        open_upto(cells, n - 1)
    }
}

/// The indices of the empty cells, ascending.
pub open spec fn open_cells(cells: Seq<char>) -> Seq<i64> {
    open_upto(cells, cells.len() as int)
}

/// What a player is told whose index names no cell.
pub open spec fn out_of_range_message() -> Seq<char> {
    "Please choose a number from 0 to 8."@
}

/// What a player is told whose cell is taken.
pub open spec fn cell_taken_message() -> Seq<char> {
    "That space is already taken."@
}

/// Why a move to `index` is refused, if it is: the index must name a cell,
/// and the cell must be empty.
pub open spec fn refusal(cells: Seq<char>, index: int) -> Option<Seq<char>> {
    if !(0 <= index <= 8) {
        Some(out_of_range_message())
    } else if cells[index] != EMPTY {
        Some(cell_taken_message())
    } else {
        None
    }
}

/// The characters of an optional text.
pub open spec fn text_of(message: Option<String>) -> Option<Seq<char>> {
    match message {
        Some(text) => Some(text@),
        None => None,
    }
}

/// A board: nine cells in row order, and the message of the last refused move.
#[derive(Debug, PartialEq, Eq)]
pub struct Board {
    spaces: Vec<char>,
    error_message: Option<String>,
}

impl Board {
    /// Every board has nine cells.
    #[verifier::type_invariant]
    pub open spec fn well_formed(&self) -> bool {
        self@.len() == CELLS
    }

    /// The nine cells, in row order.
    pub closed spec fn view(&self) -> Seq<char> {
        self.spaces@
    }

    /// The message that the board carries, if any.
    pub closed spec fn message(&self) -> Option<Seq<char>> {
        text_of(self.error_message)
    }

    /// The board on which nobody has moved yet.
    pub fn new() -> (board: Board)
        ensures
            board@ == Seq::new(9, |i: int| EMPTY),
            board.message() is None,
    {
        let empty_spaces: Vec<char> = vec![EMPTY; CELLS];
        assert(empty_spaces@ =~= Seq::new(9, |i: int| EMPTY));
        Board { spaces: empty_spaces, error_message: None }
    }

    /// The board with the given cells and no message. The cells need not be
    /// a position that play can reach.
    pub fn new_from_spaces(spaces: Vec<char>) -> (board: Board)
        requires
            spaces@.len() == CELLS,
        ensures
            board@ == spaces@,
            board.message() is None,
    {
        Board { spaces, error_message: None }
    }

    /// The nine cells.
    pub fn spaces(&self) -> (cells: &Vec<char>)
        ensures
            cells@ == self@,
            cells@.len() == CELLS,
    {
        proof {
            use_type_invariant(self);
        }
        &self.spaces
    }

    /// The message of the last refused move, if the board carries one.
    pub fn error_message(&self) -> (message: Option<String>)
        ensures
            text_of(message) == self.message(),
    {
        match &self.error_message {
            Some(text) => Some(text.clone()),
            None => None,
        }
    }

    /// The board after a placement at `index`: if that cell is empty it now
    /// holds the token to play; if it is taken, the cells are unchanged. No
    /// message either way.
    pub fn place(&self, index: i64) -> (board: Board)
        requires
            0 <= index < CELLS,
        ensures
            board@ == placed(self@, index as int),
            board.message() is None,
    {
        proof {
            use_type_invariant(self);
        }
        let mut new_spaces = self.spaces.clone();
        assert(new_spaces@ =~= self.spaces@);
        let at: usize = index as usize;
        if new_spaces[at] == EMPTY {
            new_spaces.set(at, self.current_token());
        }
        Board { spaces: new_spaces, error_message: None }
    }

    /// A move that is checked first. An index outside 0 to 8, or one that
    /// names a taken cell, leaves the cells as they are and attaches the
    /// reason as the message; a legal move is placed and carries no message.
    pub fn try_move(&self, index: i64) -> (board: Board)
        ensures
            board.message() == refusal(self@, index as int),
            refusal(self@, index as int) is Some ==> board@ == self@,
            refusal(self@, index as int) is None ==> board@ == placed(self@, index as int),
    {
        proof {
            use_type_invariant(self);
        }
        let error_message = self.get_error_message(index);
        match error_message {
            Some(text) => {
                let same_spaces = self.spaces.clone();
                assert(same_spaces@ =~= self.spaces@);
                Board { spaces: same_spaces, error_message: Some(text) }
            },
            None => self.place(index),
        }
    }

    /// The reason for refusing a move to `index`, or `None` for a legal move.
    fn get_error_message(&self, index: i64) -> (message: Option<String>)
        ensures
            text_of(message) == refusal(self@, index as int),
    {
        proof {
            use_type_invariant(self);
        }
        if 0 <= index && index <= 8 {
            proof {
                lemma_open_cells_hold_the_empty(self@, index);
            }
            self.check_against_available_moves(index)
        } else {
            Some(String::from_str("Please choose a number from 0 to 8."))
        }
    }

    /// `None` if `index` is among the available cells, the message otherwise.
    fn check_against_available_moves(&self, index: i64) -> (message: Option<String>)
        ensures
            text_of(message) == if open_cells(self@).contains(index) {
                None
            } else {
                Some(cell_taken_message())
            },
    {
        let available = self.available_spaces();
        if holds(&available, index) {
            None
        } else {
            Some(String::from_str("That space is already taken."))
        }
    }

    /// The number of empty cells.
    fn empty_spaces(&self) -> (count: usize)
        ensures
            count == empty_count(self@),
            count <= CELLS,
    {
        proof {
            use_type_invariant(self);
        }
        let mut count: usize = 0;
        let mut i: usize = 0;
        while i < self.spaces.len()
            invariant
                i <= self.spaces@.len() == CELLS,
                count == empty_upto(self.spaces@, i as int),
                count <= i,
            decreases self.spaces@.len() - i,
        {
            if self.spaces[i] == EMPTY {
                count += 1;
            }
            i += 1;
        }
        count
    }

    /// The token that the next placement puts down.
    pub fn current_token(&self) -> (token: char)
        ensures
            token == token_to_play(self@),
    {
        if self.empty_spaces() % 2 == 1 {
            FIRST
        } else {
            SECOND
        }
    }

    /// The board mirrored at its main diagonal, without a message: its rows
    /// are the columns of this one.
    pub fn transpose(&self) -> (board: Board)
        ensures
            board@ == transposed(self@),
            board.message() is None,
    {
        proof {
            use_type_invariant(self);
        }
        let mut new_spaces: Vec<char> = Vec::new();
        let mut i: usize = 0;
        let dim: usize = self.dimension();
        let size: usize = dim * dim;
        while i < size - 1
            invariant
                dim == 3,
                size == CELLS,
                self.spaces@.len() == CELLS,
                i <= size - 1,
                new_spaces@.len() == i,
                forall|k: int| 0 <= k < i ==> new_spaces@[k] == self.spaces@[(k % 3) * 3 + k / 3],
            decreases size - 1 - i,
        {
            assert(i * dim == 3 * i) by (nonlinear_arith)
                requires
                    dim == 3,
            ;
            assert((3 * i) % 8 == (i % 3) * 3 + i / 3);
            new_spaces.push(self.spaces[(i * dim) % (size - 1)]);
            i += 1;
        }
        new_spaces.push(self.spaces[size - 1]);
        assert(new_spaces@ =~= transposed(self.spaces@));
        Board { spaces: new_spaces, error_message: None }
    }

    /// Whether one token fills the line.
    fn is_winning(&self, line: &[char]) -> (won: bool)
        requires
            line@.len() > 0,
        ensures
            won == all_same_token(line@),
    {
        self.is_all_same_token(slice_to_vec(line))
    }

    /// The side of the grid.
    fn dimension(&self) -> (side: usize)
        ensures
            side == 3,
            side * side == self@.len(),
    {
        proof {
            use_type_invariant(self);
        }
        3
    }

    /// Whether one token fills the diagonal from the top left.
    fn has_backslash_diagonal_winner(&self) -> (won: bool)
        ensures
            won == all_same_token(backslash(self@)),
    {
        proof {
            use_type_invariant(self);
        }
        let mut i: usize = 0;
        let dim: usize = self.dimension();
        let mut diagonal_tokens: Vec<char> = Vec::new();
        while i < dim
            invariant
                dim == 3,
                self.spaces@.len() == CELLS,
                i <= dim,
                diagonal_tokens@.len() == i,
                forall|k: int| 0 <= k < i ==> diagonal_tokens@[k] == self.spaces@[4 * k],
            decreases dim - i,
        {
            assert((dim + 1) * i == 4 * i) by (nonlinear_arith)
                requires
                    dim == 3,
            ;
            diagonal_tokens.push(self.spaces[(dim + 1) * i]);
            i += 1;
        }
        assert(diagonal_tokens@ =~= backslash(self.spaces@));
        self.is_all_same_token(diagonal_tokens)
    }

    /// Whether one token fills the diagonal from the top right.
    fn has_slash_diagonal_winner(&self) -> (won: bool)
        ensures
            won == all_same_token(slash(self@)),
    {
        proof {
            use_type_invariant(self);
        }
        let mut i: usize = 1;
        let dim: usize = self.dimension();
        let mut diagonal_tokens: Vec<char> = Vec::new();
        while i <= dim
            invariant
                dim == 3,
                self.spaces@.len() == CELLS,
                1 <= i <= dim + 1,
                diagonal_tokens@.len() == i - 1,
                forall|k: int| 0 <= k < i - 1 ==> diagonal_tokens@[k] == self.spaces@[2 * (k + 1)],
            decreases dim + 1 - i,
        {
            assert((dim - 1) * i == 2 * i) by (nonlinear_arith)
                requires
                    dim == 3,
            ;
            diagonal_tokens.push(self.spaces[(dim - 1) * i]);
            i += 1;
        }
        assert(diagonal_tokens@ =~= slash(self.spaces@));
        self.is_all_same_token(diagonal_tokens)
    }

    /// Whether the tokens are all the first one, and that one is a token.
    fn is_all_same_token(&self, tokens: Vec<char>) -> (same: bool)
        requires
            tokens@.len() > 0,
        ensures
            same == all_same_token(tokens@),
    {
        let first_token = tokens[0];
        let mut all_first = true;
        let mut i: usize = 0;
        while i < tokens.len()
            invariant
                i <= tokens@.len(),
                first_token == tokens@[0],
                all_first == (forall|k: int| 0 <= k < i ==> #[trigger] tokens@[k] == tokens@[0]),
            decreases tokens@.len() - i,
        {
            if tokens[i] != first_token {
                all_first = false;
            }
            i += 1;
        }
        all_first && first_token != EMPTY
    }

    /// The token that fills a line, if one does. Rows are looked at first,
    /// then columns, then the diagonal from the top right, then the one from
    /// the top left; the first line found decides.
    pub fn winner(&self) -> (token: Option<char>)
        ensures
            token == winner_of(self@),
    {
        proof {
            use_type_invariant(self);
            reveal_with_fuel(winner_from, 9);
        }
        let transposed_board = self.transpose();
        proof {
            use_type_invariant(&transposed_board);
        }
        let mut r: usize = 0;
        while r < 3
            invariant
                r <= 3,
                self.spaces@.len() == CELLS,
                winner_of(self.spaces@) == winner_from(self.spaces@, r as int),
            decreases 3 - r,
        {
            let row_cells = slice_subrange(self.spaces.as_slice(), 3 * r, 3 * r + 3);
            assert(row_cells@ =~= row(self.spaces@, r as int));
            if self.is_winning(row_cells) {
                return Some(row_cells[0]);
            }
            r += 1;
        }
        let mut c: usize = 0;
        while c < 3
            invariant
                c <= 3,
                self.spaces@.len() == CELLS,
                transposed_board.spaces@ == transposed(self.spaces@),
                winner_of(self.spaces@) == winner_from(self.spaces@, 3 + c as int),
            decreases 3 - c,
        {
            let column_cells = slice_subrange(transposed_board.spaces.as_slice(), 3 * c, 3 * c + 3);
            assert(column_cells@ =~= column(self.spaces@, c as int));
            if self.is_winning(column_cells) {
                return Some(column_cells[0]);
            }
            c += 1;
        }
        if self.has_slash_diagonal_winner() {
            return Some(self.spaces[self.dimension() - 1]);
        }
        if self.has_backslash_diagonal_winner() {
            return Some(self.spaces[0]);
        }
        None
    }

    /// Whether a line is won.
    fn somebody_won(&self) -> (won: bool)
        ensures
            won == winner_of(self@) is Some,
    {
        self.winner().is_some()
    }

    /// Whether no cell is empty.
    fn board_is_full(&self) -> (full: bool)
        ensures
            full == (empty_count(self@) == 0),
    {
        self.empty_spaces() == 0
    }

    /// Whether play has ended: somebody has won, or no cell is left.
    pub fn is_game_over(&self) -> (over: bool)
        ensures
            over == game_over(self@),
    {
        self.somebody_won() || self.board_is_full()
    }

    /// The indices of the empty cells, ascending.
    pub fn available_spaces(&self) -> (available: Vec<i64>)
        ensures
            available@ == open_cells(self@),
    {
        proof {
            use_type_invariant(self);
        }
        let mut available_spaces: Vec<i64> = Vec::new();
        let mut i: usize = 0;
        let size: usize = self.spaces.len();
        while i < size
            invariant
                i <= size == self.spaces@.len() == CELLS,
                available_spaces@ == open_upto(self.spaces@, i as int),
            decreases size - i,
        {
            if self.spaces[i] == EMPTY {
                available_spaces.push(i as i64);
            }
            i += 1;
        }
        available_spaces
    }
}

impl Clone for Board {
    /// A copy with the same cells and the same message.
    fn clone(&self) -> (copy: Board)
        ensures
            copy@ == self@,
            copy.message() == self.message(),
    {
        proof {
            use_type_invariant(self);
        }
        let spaces = self.spaces.clone();
        assert(spaces@ =~= self.spaces@);
        Board { spaces, error_message: self.error_message() }
    }
}

/// Whether `value` occurs in `list`.
pub fn holds(list: &Vec<i64>, value: i64) -> (found: bool)
    ensures
        found == list@.contains(value),
{
    let mut i: usize = 0;
    while i < list.len()
        invariant
            i <= list@.len(),
            forall|k: int| 0 <= k < i ==> list@[k] != value,
        decreases list@.len() - i,
    {
        if list[i] == value {
            return true;
        }
        i += 1;
    }
    false
}

/// The available cells among the first `n` are exactly the empty ones, each
/// once and in ascending order.
pub proof fn lemma_open_upto(cells: Seq<char>, n: int)
    requires
        0 <= n <= cells.len() <= i64::MAX,
    ensures
        open_upto(cells, n).len() == empty_upto(cells, n),
        forall|k: int|
            0 <= k < open_upto(cells, n).len() ==> 0 <= #[trigger] open_upto(cells, n)[k] < n
                && cells[open_upto(cells, n)[k] as int] == EMPTY,
        forall|j: int, k: int|
            0 <= j < k < open_upto(cells, n).len() ==> open_upto(cells, n)[j] < open_upto(
                cells,
                n,
            )[k],
        forall|i: int|
            0 <= i < n && cells[i] == EMPTY ==> open_upto(cells, n).contains(i as i64),
    decreases n,
{
    if n > 0 {
        lemma_open_upto(cells, n - 1);
        let before = open_upto(cells, n - 1);
        let now = open_upto(cells, n);
        if cells[n - 1] == EMPTY {
            assert(now == before.push((n - 1) as i64));
            assert(now[before.len() as int] == (n - 1) as i64);
            assert forall|i: int| 0 <= i < n && cells[i] == EMPTY implies now.contains(
                i as i64,
            ) by {
                if i < n - 1 {
                    let k: int = choose|k: int| 0 <= k < before.len() && before[k] == i as i64;
                    assert(now[k] == i as i64);
                } else {
                    assert(now[before.len() as int] == i as i64);
                }
            }
        }
    }
}

/// An index is available exactly when it names an empty cell.
pub proof fn lemma_open_cells_hold_the_empty(cells: Seq<char>, index: i64)
    requires
        cells.len() == CELLS,
    ensures
        open_cells(cells).contains(index) <==> 0 <= index < 9 && cells[index as int] == EMPTY,
{
    lemma_open_upto(cells, 9);
    let open = open_cells(cells);
    if open.contains(index) {
        let k: int = choose|k: int| 0 <= k < open.len() && open[k] == index;
        assert(0 <= open[k] < 9);
    }
}

/// Taking an empty cell leaves one empty cell fewer.
pub proof fn lemma_taking_a_cell(cells: Seq<char>, index: int, token: char, n: int)
    requires
        0 <= index < cells.len(),
        0 <= n <= cells.len(),
        cells[index] == EMPTY,
        token != EMPTY,
    ensures
        empty_upto(cells.update(index, token), n) + (if index < n {
            1nat
        } else {
            0nat
        }) == empty_upto(cells, n),
    decreases n,
{
    if n > 0 {
        lemma_taking_a_cell(cells, index, token, n - 1);
    }
}

/// A placement on an empty cell fills it with a token and leaves one empty
/// cell fewer.
pub proof fn lemma_placed_on_empty(cells: Seq<char>, index: int)
    requires
        0 <= index < cells.len(),
        cells[index] == EMPTY,
    ensures
        placed(cells, index) == cells.update(index, token_to_play(cells)),
        placed(cells, index)[index] != EMPTY,
        empty_count(placed(cells, index)) + 1 == empty_count(cells),
{
    lemma_taking_a_cell(cells, index, token_to_play(cells), cells.len() as int);
}

/// Every cell is either empty or taken.
pub proof fn lemma_empty_and_occupied(cells: Seq<char>, n: int)
    requires
        0 <= n <= cells.len(),
    ensures
        empty_upto(cells, n) + occupied_upto(cells, n) == n,
    decreases n,
{
    if n > 0 {
        lemma_empty_and_occupied(cells, n - 1);
    }
}

/// No more cells are empty than there are cells.
pub proof fn lemma_empty_count_bound(cells: Seq<char>)
    ensures
        empty_count(cells) <= cells.len(),
{
    lemma_empty_and_occupied(cells, cells.len() as int);
}

/// There are as many available cells as the board has cells that hold no
/// token: on nine cells, nine less the number of tokens.
pub proof fn law_available_count(cells: Seq<char>)
    requires
        cells.len() == CELLS,
    ensures
        open_cells(cells).len() == 9 - occupied_count(cells),
        open_cells(cells).len() == empty_count(cells),
{
    lemma_open_upto(cells, 9);
    lemma_empty_and_occupied(cells, 9);
}

/// Whether line `k` is filled by `token`.
pub open spec fn line_won_by(cells: Seq<char>, k: int, token: char) -> bool {
    all_same_token(line(cells, k)) && line(cells, k)[0] == token
}

/// Whether one of the eight lines is filled by `token`.
pub open spec fn has_line(cells: Seq<char>, token: char) -> bool {
    exists|k: int| 0 <= k < 8 && #[trigger] line_won_by(cells, k, token)
}

/// Nobody has won exactly when no line is filled by one token. A winner
/// fills a line, and is never the empty mark. A token that fills a line is
/// the winner, unless another token fills a line too: then the line that
/// comes first in the order of [`line`] decides.
pub proof fn law_winner_fills_a_line(cells: Seq<char>, token: char)
    ensures
        winner_of(cells) is None <==> forall|k: int|
            0 <= k < 8 ==> !all_same_token(#[trigger] line(cells, k)),
        winner_of(cells) == Some(token) ==> token != EMPTY && has_line(cells, token),
        has_line(cells, token) && (forall|other: char| #[trigger]
            has_line(cells, other) ==> other == token) ==> winner_of(cells) == Some(token),
{
    reveal_with_fuel(winner_from, 9);
    assert(winner_of(cells) is None ==> forall|k: int|
        0 <= k < 8 ==> !all_same_token(#[trigger] line(cells, k)));
    if let Some(found) = winner_of(cells) {
        assert(line_won_by(cells, 0, found) || line_won_by(cells, 1, found) || line_won_by(
            cells,
            2,
            found,
        ) || line_won_by(cells, 3, found) || line_won_by(cells, 4, found) || line_won_by(
            cells,
            5,
            found,
        ) || line_won_by(cells, 6, found) || line_won_by(cells, 7, found));
        assert(has_line(cells, found));
    } else if has_line(cells, token) {
        let k: int = choose|k: int| 0 <= k < 8 && #[trigger] line_won_by(cells, k, token);
        assert(all_same_token(line(cells, k)));
    }
}

/// Of `n` empty cells, all are empty.
proof fn lemma_all_empty(n: nat)
    ensures
        empty_count(Seq::new(n, |i: int| EMPTY)) == n,
{
    lemma_all_empty_upto(n, n as int);
}

/// Of `n` empty cells, the first `m` are empty.
proof fn lemma_all_empty_upto(n: nat, m: int)
    requires
        0 <= m <= n,
    ensures
        empty_upto(Seq::new(n, |i: int| EMPTY), m) == m,
    decreases m,
{
    if m > 0 {
        lemma_all_empty_upto(n, m - 1);
    }
}

/// The first player opens, and each placement on an empty cell hands the
/// turn to the other player.
pub proof fn law_turns_alternate(cells: Seq<char>, index: int)
    requires
        cells.len() == CELLS,
        0 <= index < 9,
        cells[index] == EMPTY,
    ensures
        token_to_play(Seq::new(9, |i: int| EMPTY)) == FIRST,
        token_to_play(cells) == FIRST ==> token_to_play(placed(cells, index)) == SECOND,
        token_to_play(cells) == SECOND ==> token_to_play(placed(cells, index)) == FIRST,
{
    lemma_placed_on_empty(cells, index);
    lemma_all_empty(9);
}

/// A cell that was just taken is no longer available, and a placement on a
/// taken cell changes nothing, however often it is repeated.
pub proof fn law_place_round_trip(cells: Seq<char>, index: int)
    requires
        cells.len() == CELLS,
        0 <= index < 9,
    ensures
        cells[index] == EMPTY ==> !open_cells(placed(cells, index)).contains(index as i64),
        cells[index] != EMPTY ==> placed(cells, index) == cells,
        placed(placed(cells, index), index) == placed(cells, index),
{
    if cells[index] == EMPTY {
        lemma_placed_on_empty(cells, index);
    }
    lemma_open_cells_hold_the_empty(placed(cells, index), index as i64);
}

} // verus!
