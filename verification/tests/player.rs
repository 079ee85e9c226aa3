use tictactoe::ai::{Strategy, AI};
use tictactoe::board::Board;
use tictactoe::console_input::ConsoleInput;
use tictactoe::console_reader::ConsoleReader;
use tictactoe::player::Player;

fn create_human_player_with_mock_input(fake_input: &str) -> Player {
    let mock_reader = ConsoleReader::MockReader { str_in_stdin: fake_input.to_string() };
    let mock_input = ConsoleInput { reader: mock_reader };
    Player::new_human(mock_input)
}

#[test]
fn human_player_gets_move_from_console_input() {
    let player = create_human_player_with_mock_input("5\n");
    let player_with_invalid_input = create_human_player_with_mock_input("claws");

    let board = Board::new();

    assert_eq!(Some(5), player.get_move(board.clone()));
    assert_eq!(None, player_with_invalid_input.get_move(board.clone()));
}

#[test]
fn computer_player_gets_move_from_minimax() {
    let dumb_ai = AI::new(Strategy::LowestAvailable);
    let player = Player::new_computer(dumb_ai);
    let board = Board::new();

    assert_eq!(Some(0), player.get_move(board.clone()));
}

#[test]
fn a_person_may_name_any_integer() {
    let board = Board::new();

    assert_eq!(Some(1000), create_human_player_with_mock_input("1000\n").get_move(board.clone()));
    assert_eq!(Some(-9), create_human_player_with_mock_input(" -9 ").get_move(board.clone()));
    assert_eq!(None, create_human_player_with_mock_input("").get_move(board));
}

#[test]
fn a_searching_computer_player_takes_the_winning_cell() {
    let player = Player::new_computer(AI::new(Strategy::Minimax));
    let board = Board::new_from_spaces(vec!['o', 'x', 'o', 'o', 'x', 'x', ' ', ' ', ' ']);

    assert_eq!(Some(7), player.get_move(board));
}

#[test]
fn a_copied_player_is_the_same_player() {
    let person = create_human_player_with_mock_input("3\n");
    let engine = Player::new_computer(AI::new(Strategy::Minimax));

    assert_eq!(person, person.clone());
    assert_eq!(engine, engine.clone());
    assert_ne!(person, engine);
}
