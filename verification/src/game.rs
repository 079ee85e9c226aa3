//! One game: a board, two players, and the turn that one of them takes.

use vstd::prelude::*;
use crate::board::{placed, refusal, token_to_play, Board, FIRST};
use crate::console_output::ConsoleOutput;
use crate::player::{player_move, Player};

verus! {

/// A game in progress. `player1` places the first token.
#[derive(Debug, PartialEq, Eq)]
pub struct Game {
    pub output: ConsoleOutput,
    pub board: Board,
    pub player1: Player,
    pub player2: Player,
}

/// The player whose turn it is.
pub open spec fn player_to_move(game: Game) -> Player {
    if token_to_play(game.board@) == FIRST {
        game.player1
    } else {
        game.player2
    }
}

/// Whether `after` is the board that a checked move to `index` makes of
/// `cells`: a refused move leaves the cells and attaches the reason, a legal
/// one is placed and carries no message.
pub open spec fn is_move_result(cells: Seq<char>, index: int, after: Board) -> bool {
    &&& after.message() == refusal(cells, index)
    &&& after@ == if refusal(cells, index) is Some {
        cells
    } else {
        placed(cells, index)
    }
}

impl Game {
    /// The game with this output, board and players.
    pub fn new(output: ConsoleOutput, board: Board, player1: Player, player2: Player) -> (game:
        Game)
        ensures
            game == (Game { output, board, player1, player2 }),
    {
        Game { output, board, player1, player2 }
    }

    /// The player whose turn it is: the first player while the number of
    /// empty cells is odd.
    pub fn current_player(&self) -> (player: &Player)
        ensures
            *player == player_to_move(*self),
    {
        if self.board.current_token() == FIRST {
            &self.player1
        } else {
            &self.player2
        }
    }

    /// The board after the turn of the player to move. The player's move is
    /// checked and made; a refused move leaves the cells as they are and
    /// attaches the reason. Where the player names no move, the cells stay
    /// and the board carries no message.
    pub fn next_turn(&self) -> (board: Board)
        ensures
            match player_move(player_to_move(*self), self.board@) {
                Some(index) => is_move_result(self.board@, index, board),
                None => board@ == self.board@ && board.message() is None,
            },
    {
        let spaces = self.board.spaces().clone();
        assert(spaces@ =~= self.board@);
        let new_board = Board::new_from_spaces(spaces);
        let chosen = self.current_player().get_move(new_board.clone());
        match chosen {
            Some(index) => self.board.try_move(index),
            None => new_board,
        }
    }
}

} // verus!
