use tictactoe::board::Board;

fn board_of(cells: [char; 9]) -> Board {
    Board::new_from_spaces(cells.to_vec())
}

#[test]
fn has_9_spaces() {
    let board = Board::new();

    assert_eq!(9, board.spaces().len());
}

#[test]
fn can_create_empty_board() {
    let board = Board::new();

    for space in board.spaces().iter() {
        assert_eq!(' ', *space);
    }
}

#[test]
fn can_create_from_another_board() {
    let board = Board::new_from_spaces(vec!['x', 'o', ' ', ' ', ' ', ' ', ' ', ' ', ' ']);

    assert_eq!('x', board.spaces()[0]);
    assert_eq!('o', board.spaces()[1]);
}

#[test]
fn can_place_a_token() {
    let mut board = Board::new();

    board = board.place(0);
    board = board.place(1);

    assert_eq!('x', board.spaces()[0]);
    assert_eq!('o', board.spaces()[1]);
    assert_eq!(' ', board.spaces()[2]);
}

#[test]
fn can_only_place_a_token_in_an_empty_space() {
    let mut board = Board::new();

    board = board.place(0);
    board = board.place(0);

    assert_eq!('x', board.spaces()[0]);
    assert_eq!('o', board.current_token());
}

#[test]
fn knows_the_current_token() {
    let mut board = Board::new();
    assert_eq!('x', board.current_token());

    board = board.place(0);
    assert_eq!('o', board.current_token());
}

#[test]
fn knows_someone_wins_when_they_have_a_row() {
    let x_wins_boards = [
        board_of(['x', 'x', 'x', 'o', 'o', ' ', ' ', ' ', ' ']),
        board_of(['o', 'o', ' ', 'x', 'x', 'x', ' ', ' ', ' ']),
        board_of(['o', 'o', ' ', ' ', ' ', ' ', 'x', 'x', 'x']),
    ];

    for board in x_wins_boards.iter() {
        assert_eq!(Some('x'), board.winner())
    }

    let o_wins_board = board_of(['o', 'o', 'o', 'x', 'x', ' ', 'x', ' ', ' ']);

    assert_eq!(Some('o'), o_wins_board.winner())
}

#[test]
fn can_transpose_the_spaces() {
    let board = board_of(['0', '1', '2', '3', '4', '5', '6', '7', '8']);

    let transposed_board = board_of(['0', '3', '6', '1', '4', '7', '2', '5', '8']);

    assert_eq!(transposed_board, board.transpose());
}

#[test]
fn knows_someone_wins_when_they_have_a_column() {
    let x_wins_boards = [
        board_of(['x', 'o', ' ', 'x', 'o', ' ', 'x', ' ', ' ']),
        board_of(['o', 'x', ' ', 'o', 'x', ' ', ' ', 'x', ' ']),
        board_of(['o', 'o', 'x', ' ', ' ', 'x', ' ', ' ', 'x']),
    ];

    for board in x_wins_boards.iter() {
        assert_eq!(Some('x'), board.winner())
    }

    let o_wins_board = board_of(['o', 'x', 'x', 'o', 'x', ' ', 'o', ' ', ' ']);

    assert_eq!(Some('o'), o_wins_board.winner())
}

#[test]
fn knows_someone_wins_when_they_have_a_diagonal() {
    let x_wins_boards = [
        board_of(['x', 'o', ' ', 'o', 'x', ' ', ' ', ' ', 'x']),
        board_of(['o', ' ', 'x', 'o', 'x', ' ', 'x', ' ', ' ']),
    ];

    for board in x_wins_boards.iter() {
        assert_eq!(Some('x'), board.winner())
    }

    let o_wins_board = board_of(['o', 'x', 'x', ' ', 'o', ' ', ' ', 'x', 'o']);

    assert_eq!(Some('o'), o_wins_board.winner())
}

#[test]
fn knows_when_nobody_wins() {
    let unfinished_boards = [
        Board::new(),
        board_of(['o', ' ', ' ', 'o', 'x', ' ', 'x', ' ', ' ']),
        board_of(['x', 'x', 'o', 'o', 'o', 'x', 'x', 'o', 'x']),
    ];

    for board in unfinished_boards.iter() {
        assert_eq!(None, board.winner())
    }
}

#[test]
fn knows_when_the_game_is_over() {
    let game_over_boards = [
        board_of(['o', 'o', 'o', 'x', 'x', ' ', ' ', 'x', ' ']),
        board_of(['o', ' ', 'x', 'o', 'x', ' ', 'x', ' ', ' ']),
        board_of(['x', 'x', 'o', 'o', 'o', 'x', 'x', 'o', 'x']),
    ];

    for board in game_over_boards.iter() {
        assert!(board.is_game_over())
    }
}

#[test]
fn knows_when_the_game_is_not_over() {
    let game_over_boards = [
        Board::new(),
        board_of(['o', ' ', ' ', 'o', 'x', ' ', 'x', ' ', ' ']),
        board_of(['x', 'x', 'o', 'o', ' ', 'x', 'x', 'o', 'x']),
    ];

    for board in game_over_boards.iter() {
        assert!(!board.is_game_over())
    }
}

#[test]
fn knows_the_available_spaces() {
    let empty_board = Board::new();

    let board = board_of(['x', 'o', ' ', ' ', 'x', ' ', ' ', 'o', ' ']);

    assert_eq!(vec![0, 1, 2, 3, 4, 5, 6, 7, 8], empty_board.available_spaces());
    assert_eq!(vec![2, 3, 5, 6, 8], board.available_spaces());
}

#[test]
fn starts_with_no_error_message() {
    let board = Board::new();

    assert_eq!(None, board.error_message());
}

#[test]
fn sets_an_error_message_for_invalid_moves() {
    let board = board_of(['x', 'o', ' ', ' ', 'x', ' ', ' ', 'o', ' ']);

    let space_already_taken_board = board.try_move(0);
    let invalid_space_board = board.try_move(1000);

    assert_eq!(
        Some("That space is already taken.".to_string()),
        space_already_taken_board.error_message()
    );
    assert_eq!(
        Some("Please choose a number from 0 to 8.".to_string()),
        invalid_space_board.error_message()
    );
}

#[test]
fn try_move_can_place_a_valid_token() {
    let board = board_of([' ', 'x', ' ', ' ', 'x', ' ', ' ', 'o', ' ']);

    let board = board.try_move(0);

    assert_eq!('o', board.spaces()[0]);
}

#[test]
fn refused_moves_leave_the_cells_alone() {
    let board = board_of(['x', 'o', ' ', ' ', 'x', ' ', ' ', 'o', ' ']);

    for index in [0, 1, 4, 7, 9, 1000, -1, i64::MIN, i64::MAX] {
        let after = board.try_move(index);
        assert_eq!(board.spaces(), after.spaces());
        assert!(after.error_message().is_some());
    }
    assert_eq!(
        Some("Please choose a number from 0 to 8.".to_string()),
        board.try_move(-1).error_message()
    );
    assert_eq!(
        Some("Please choose a number from 0 to 8.".to_string()),
        board.try_move(9).error_message()
    );
    assert_eq!(
        Some("That space is already taken.".to_string()),
        board.try_move(7).error_message()
    );
}

#[test]
fn legal_moves_carry_no_message_and_fill_the_cell() {
    let board = board_of(['x', 'o', ' ', ' ', 'x', ' ', ' ', 'o', ' ']);

    let after = board.try_move(8);

    assert_eq!(None, after.error_message());
    assert_eq!(&vec!['x', 'o', ' ', ' ', 'x', ' ', ' ', 'o', 'x'], after.spaces());
    assert_eq!('o', after.current_token());
}

#[test]
fn a_move_clears_the_message_of_the_board_it_starts_from() {
    let refused = Board::new().try_move(1000);
    assert!(refused.error_message().is_some());

    assert_eq!(None, refused.place(4).error_message());
    assert_eq!(None, refused.try_move(4).error_message());
    assert_eq!(None, refused.transpose().error_message());
}

#[test]
fn available_spaces_count_the_cells_without_a_token() {
    let boards = [
        Board::new(),
        board_of(['x', 'o', ' ', ' ', 'x', ' ', ' ', 'o', ' ']),
        board_of(['x', 'x', 'o', 'o', 'o', 'x', 'x', 'o', 'x']),
        board_of(['q', ' ', 'q', ' ', 'q', ' ', 'q', ' ', 'q']),
    ];

    for board in boards.iter() {
        let tokens = board.spaces().iter().filter(|cell| **cell != ' ').count();
        assert_eq!(9 - tokens, board.available_spaces().len());
    }
}

#[test]
fn turns_alternate_from_the_first_player_on() {
    let mut board = Board::new();
    let mut expected = 'x';

    for index in [4, 0, 8, 2, 6, 1, 7, 3, 5] {
        assert_eq!(expected, board.current_token());
        board = board.place(index);
        assert_eq!(expected, board.spaces()[index as usize]);
        expected = if expected == 'x' { 'o' } else { 'x' };
    }
    assert!(board.available_spaces().is_empty());
}

#[test]
fn a_taken_cell_is_no_longer_available() {
    let board = board_of(['x', 'o', ' ', ' ', 'x', ' ', ' ', 'o', ' ']);

    for index in board.available_spaces() {
        let after = board.place(index);
        assert!(!after.available_spaces().contains(&index));
        assert_eq!(board.available_spaces().len() - 1, after.available_spaces().len());
    }
}

#[test]
fn placing_on_a_taken_cell_changes_nothing() {
    let board = board_of(['x', 'o', ' ', ' ', 'x', ' ', ' ', 'o', ' ']);

    for index in [0, 1, 4, 7] {
        assert_eq!(board, board.place(index));
        assert_eq!(board.place(index), board.place(index).place(index));
    }
}

#[test]
fn the_first_line_in_the_order_of_search_decides_the_winner() {
    let rows_first = board_of(['x', 'o', ' ', 'x', 'o', ' ', 'x', 'o', ' ']);
    assert_eq!(Some('x'), rows_first.winner());

    let row_before_column = board_of(['o', 'x', ' ', 'o', 'x', ' ', 'o', 'x', ' ']);
    assert_eq!(Some('o'), row_before_column.winner());

    let second_row_before_first_column = board_of(['x', ' ', ' ', 'o', 'o', 'o', 'x', ' ', ' ']);
    assert_eq!(Some('o'), second_row_before_first_column.winner());

    let row_before_diagonal = board_of(['x', ' ', 'o', ' ', 'x', ' ', 'o', 'o', 'o']);
    assert_eq!(Some('o'), row_before_diagonal.winner());

    let two_rows = board_of(['x', 'x', 'x', 'o', 'o', 'o', ' ', ' ', ' ']);
    assert_eq!(Some('x'), two_rows.winner());

    let slash_before_backslash = board_of(['o', ' ', 'x', ' ', 'x', ' ', 'x', ' ', 'o']);
    assert_eq!(Some('x'), slash_before_backslash.winner());
}

#[test]
fn three_empty_cells_in_a_line_win_nothing() {
    let board = board_of([' ', ' ', ' ', 'x', 'o', 'x', 'o', 'x', 'o']);

    assert_eq!(None, board.winner());
    assert!(!board.is_game_over());
}

#[test]
fn a_full_board_without_a_line_is_over() {
    let board = board_of(['o', 'x', 'o', 'o', 'x', 'x', 'x', 'o', 'x']);

    assert_eq!(None, board.winner());
    assert!(board.available_spaces().is_empty());
    assert!(board.is_game_over());
}

#[test]
fn a_clone_keeps_cells_and_message() {
    let board = board_of(['x', 'o', ' ', ' ', 'x', ' ', ' ', 'o', ' ']).try_move(0);

    assert_eq!(board, board.clone());
    assert_eq!(board.error_message(), board.clone().error_message());
}
