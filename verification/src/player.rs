//! The two kinds of player, and the one way to ask either for a move.

use vstd::prelude::*;
use crate::ai::{as_int, engine_move, AI};
use crate::board::{Board, EMPTY};
use crate::console_input::ConsoleInput;
use crate::text::typed_int;

verus! {

/// Somebody who moves: a person at the console, or the engine.
#[derive(Debug, PartialEq, Eq)]
pub enum Player {
    /// A person, whose moves are read from `input`.
    HumanPlayer { input: ConsoleInput },
    /// The engine `ai`.
    ComputerPlayer { ai: AI },
}

/// The move that `player` makes on `cells`: what a person typed, whatever
/// integer it is, or what the engine chooses.
pub open spec fn player_move(player: Player, cells: Seq<char>) -> Option<int> {
    match player {
        Player::HumanPlayer { input } => as_int(typed_int(input.reader@)),
        Player::ComputerPlayer { ai } => engine_move(ai@, cells),
    }
}

impl Player {
    /// A person who types into `input`.
    pub fn new_human(input: ConsoleInput) -> (player: Player)
        ensures
            player == (Player::HumanPlayer { input }),
    {
        Player::HumanPlayer { input }
    }

    /// The engine `ai` as a player.
    pub fn new_computer(ai: AI) -> (player: Player)
        ensures
            player == (Player::ComputerPlayer { ai }),
    {
        Player::ComputerPlayer { ai }
    }

    /// The player's move on `board`. A person's move is the integer that
    /// was typed, unchecked, or `None` where no integer was typed; the
    /// engine's move names an empty cell, or is `None` on a full board.
    pub fn get_move(&self, board: Board) -> (choice: Option<i64>)
        ensures
            as_int(choice) == player_move(*self, board@),
            self is ComputerPlayer ==> (choice matches Some(index) ==> 0 <= index < 9
                && board@[index as int] == EMPTY),
    {
        match self {
            Player::HumanPlayer { input } => input.get_int(),
            Player::ComputerPlayer { ai } => ai.get_move(board),
        }
    }

    /// A player of the same kind, with a copy of its input or its engine.
    pub fn clone(&self) -> (copy: Player)
        ensures
            copy == *self,
    {
        match self {
            Player::HumanPlayer { input } => Player::HumanPlayer { input: input.clone() },
            Player::ComputerPlayer { ai } => Player::ComputerPlayer { ai: ai.clone() },
        }
    }
}

} // verus!
