use tictactoe::console_input::ConsoleInput;
use tictactoe::console_reader::ConsoleReader;
use tictactoe::menu::{match_choice, Menu};
use tictactoe::player::Player;

fn create_menu_with_mock(fake_input: &str) -> Menu {
    let mock_reader = ConsoleReader::MockReader { str_in_stdin: fake_input.to_string() };
    let mock_input = ConsoleInput { reader: mock_reader };

    Menu::new(mock_input)
}

fn no_quit(message: String) -> i64 {
    panic!("nobody asked to quit: {}", message)
}

#[test]
fn uses_console_reader_to_get_menu_choice() {
    let menu = create_menu_with_mock("1\n");
    let menu_with_invalid_choice = create_menu_with_mock("6\n");

    assert_eq!(Some(1), menu.get_menu_choice(no_quit));
    assert_eq!(None, menu_with_invalid_choice.get_menu_choice(no_quit));
}

#[test]
fn can_quit_from_menu() {
    let menu = create_menu_with_mock("5\n");

    let choice = menu.get_menu_choice(|_| -1);
    assert_eq!(Some(-1), choice);
}

#[test]
fn the_quit_handler_is_told_that_the_exit_succeeded() {
    let menu = create_menu_with_mock("5\n");

    let choice = menu.get_menu_choice(|message| {
        assert_eq!("Exit successful.", message);
        42
    });

    assert_eq!(Some(42), choice);
}

#[test]
fn choices_from_0_to_4_stand_for_themselves() {
    let menu = create_menu_with_mock("");

    for choice in 0..5 {
        assert_eq!(Some(choice), menu.validate_choice(choice, no_quit));
        let typed = format!(" {} \n", choice);
        assert_eq!(Some(choice), create_menu_with_mock(&typed).get_menu_choice(no_quit));
    }
}

#[test]
fn anything_else_is_no_choice() {
    let menu = create_menu_with_mock("");

    for choice in [-1, 6, 7, 1000, i64::MIN, i64::MAX] {
        assert_eq!(None, menu.validate_choice(choice, no_quit));
    }
    assert_eq!(None, create_menu_with_mock("one\n").get_menu_choice(no_quit));
    assert_eq!(None, create_menu_with_mock("").get_menu_choice(no_quit));
}

#[test]
fn each_choice_seats_its_players() {
    let input = ConsoleInput::new(ConsoleReader::MockReader { str_in_stdin: "4\n".to_string() });
    let seats = |choice: i64| {
        let (first, second) = match_choice(choice, input.clone());
        (
            matches!(first, Player::HumanPlayer { .. }),
            matches!(second, Player::HumanPlayer { .. }),
        )
    };

    assert_eq!((true, true), seats(1));
    assert_eq!((true, false), seats(2));
    assert_eq!((false, true), seats(3));
    assert_eq!((false, false), seats(4));
    assert_eq!((true, true), seats(0));
    assert_eq!((true, true), seats(5));
    assert_eq!((true, true), seats(-3));
}

#[test]
fn seated_people_type_into_the_given_input_and_engines_search() {
    let input = ConsoleInput::new(ConsoleReader::MockReader { str_in_stdin: "4\n".to_string() });
    let board = tictactoe::board::Board::new_from_spaces(vec![
        'o', 'x', 'o', 'o', 'x', 'x', ' ', ' ', ' ',
    ]);

    let (person, engine) = match_choice(2, input.clone());

    assert_eq!(Player::new_human(input), person);
    assert_eq!(Some(4), person.get_move(board.clone()));
    assert_eq!(Some(7), engine.get_move(board));
}
