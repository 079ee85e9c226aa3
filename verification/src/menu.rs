//! The menu: which kind of game the user asks for, and the players that go
//! with it.

use vstd::prelude::*;
use vstd::string::*;
use crate::ai::{Strategy, AI};
use crate::console_input::ConsoleInput;
use crate::player::Player;
use crate::text::typed_int;

verus! {

/// The choice that ends the program.
pub const QUIT: i64 = 5;

/// What the handler of a quit is told.
pub open spec fn quit_message() -> Seq<char> {
    "Exit successful."@
}

/// Whether `answer` is what the menu makes of the typed `choice`. Choices 0
/// to 4 stand for themselves; 5 asks to quit, and is answered by what the
/// handler returns; anything else is no choice.
pub open spec fn is_menu_answer<F: Fn(String) -> i64>(
    choice: i64,
    quit_choice: F,
    answer: Option<i64>,
) -> bool {
    if 0 <= choice <= 4 {
        answer == Some(choice)
    } else if choice == QUIT {
        answer matches Some(value) && exists|message: String|
            message@ == quit_message() && call_ensures(quit_choice, (message,), value)
    } else {
        answer is None
    }
}

/// The menu, which reads the user's choice from `input`.
#[derive(Debug, PartialEq, Eq)]
pub struct Menu {
    pub input: ConsoleInput,
}

impl Menu {
    /// The menu that reads from `input`.
    pub fn new(input: ConsoleInput) -> (menu: Menu)
        ensures
            menu.input == input,
    {
        Menu { input }
    }

    /// The choice that was typed, if it is one. `quit_choice` is called
    /// when the user asks to quit; a front end ends the program there, and
    /// whatever a handler returns instead becomes the choice.
    pub fn get_menu_choice<F: Fn(String) -> i64>(&self, quit_choice: F) -> (answer: Option<i64>)
        requires
            forall|message: String| call_requires(quit_choice, (message,)),
        ensures
            match typed_int(self.input.reader@) {
                Some(choice) => is_menu_answer(choice, quit_choice, answer),
                None => answer is None,
            },
    {
        let input = self.input.get_int();
        match input {
            Some(choice) => self.validate_choice(choice, quit_choice),
            None => None,
        }
    }

    /// What the menu makes of `choice`.
    pub fn validate_choice<F: Fn(String) -> i64>(&self, choice: i64, quit_choice: F) -> (answer:
        Option<i64>)
        requires
            forall|message: String| call_requires(quit_choice, (message,)),
        ensures
            is_menu_answer(choice, quit_choice, answer),
    {
        if 0 <= choice && choice <= 4 {
            Some(choice)
        } else if choice == QUIT {
            let message = String::from_str("Exit successful.");
            Some(quit_choice(message))
        } else {
            None
        }
    }
}

/// Whether `player` is the one for a seat: a person at `input`, or the
/// engine that searches the game tree.
pub open spec fn is_seated(player: Player, human: bool, input: ConsoleInput) -> bool {
    if human {
        player == (Player::HumanPlayer { input })
    } else {
        player matches Player::ComputerPlayer { ai } && ai@ == Strategy::Minimax
    }
}

/// The two players of the game that `choice` stands for: 1 seats two
/// people, 2 a person against the engine, 3 the engine against a person, 4
/// the engine against itself, and anything else two people. Each person
/// types into a copy of `input`; the engine searches the game tree.
pub fn match_choice(choice: i64, input: ConsoleInput) -> (players: (Player, Player))
    ensures
        is_seated(players.0, choice != 3 && choice != 4, input),
        is_seated(players.1, choice != 2 && choice != 4, input),
{
    let ai = AI::new(Strategy::Minimax);
    match choice {
        1 => (Player::HumanPlayer { input: input.clone() }, Player::HumanPlayer { input: input.clone() }),
        2 => (Player::HumanPlayer { input: input.clone() }, Player::ComputerPlayer { ai: ai.clone() }),
        3 => (Player::ComputerPlayer { ai: ai.clone() }, Player::HumanPlayer { input: input.clone() }),
        4 => (Player::ComputerPlayer { ai: ai.clone() }, Player::ComputerPlayer { ai: ai.clone() }),
        _ => (Player::HumanPlayer { input: input.clone() }, Player::HumanPlayer { input: input.clone() }),
    }
}

} // verus!
