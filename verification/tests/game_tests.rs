use tic_tac_toe::game::{Game, GameState};
use tic_tac_toe::types::Player;

#[test]
fn test_new_game() {
    let game = Game::new();
    assert_eq!(game.state(), GameState::InProgress);
    assert_eq!(game.current_player(), Player::Human);
}

#[test]
fn test_horizontal_win() {
    let mut game = Game::new();
    // Human wins with top row
    game.make_move(0); // Human X
    game.make_move(3); // AI O
    game.make_move(1); // Human X
    game.make_move(4); // AI O
    game.make_move(2); // Human X - wins!

    assert_eq!(game.state(), GameState::Won(Player::Human));
}

#[test]
fn test_vertical_win() {
    let mut game = Game::new();
    // AI wins with left column
    game.make_move(1); // Human X
    game.make_move(0); // AI O
    game.make_move(2); // Human X
    game.make_move(3); // AI O
    game.make_move(4); // Human X
    game.make_move(6); // AI O - wins!

    assert_eq!(game.state(), GameState::Won(Player::AI));
}

#[test]
fn test_diagonal_win() {
    let mut game = Game::new();
    // Human wins with diagonal
    game.make_move(0); // Human X
    game.make_move(1); // AI O
    game.make_move(4); // Human X
    game.make_move(2); // AI O
    game.make_move(8); // Human X - wins!

    assert_eq!(game.state(), GameState::Won(Player::Human));
}

#[test]
fn test_draw() {
    let mut game = Game::new();
    // Create a draw scenario
    game.make_move(0); // Human X
    game.make_move(1); // AI O
    game.make_move(2); // Human X
    game.make_move(4); // AI O
    game.make_move(3); // Human X
    game.make_move(5); // AI O
    game.make_move(7); // Human X
    game.make_move(6); // AI O
    game.make_move(8); // Human X

    assert_eq!(game.state(), GameState::Draw);
}

#[test]
fn test_invalid_move() {
    let mut game = Game::new();
    game.make_move(0); // Human X
    assert!(!game.make_move(0)); // Try to play same position
}

#[test]
fn test_turn_alternates_from_human() {
    let mut game = Game::new();
    assert_eq!(game.current_player(), Player::Human);
    assert!(game.make_move(4));
    assert_eq!(game.current_player(), Player::AI);
    assert!(game.make_move(0));
    assert_eq!(game.current_player(), Player::Human);
    assert!(game.make_move(8));
    assert_eq!(game.current_player(), Player::AI);
}

#[test]
fn test_occupied_move_changes_nothing() {
    let mut game = Game::new();
    game.make_move(4);
    let cells_before: Vec<_> = game.board().cells().clone();
    let player_before = game.current_player();
    let state_before = game.state();
    assert!(!game.make_move(4));
    assert_eq!(game.board().cells(), &cells_before);
    assert_eq!(game.current_player(), player_before);
    assert_eq!(game.state(), state_before);
}

#[test]
fn test_out_of_range_move_changes_nothing() {
    let mut game = Game::new();
    let cells_before: Vec<_> = game.board().cells().clone();
    assert!(!game.make_move(9));
    assert!(!game.make_move(100));
    assert_eq!(game.board().cells(), &cells_before);
    assert_eq!(game.current_player(), Player::Human);
    assert_eq!(game.state(), GameState::InProgress);
}

#[test]
fn test_move_after_win_changes_nothing() {
    let mut game = Game::new();
    // Human wins with top row
    game.make_move(0);
    game.make_move(3);
    game.make_move(1);
    game.make_move(4);
    game.make_move(2);
    assert_eq!(game.state(), GameState::Won(Player::Human));
    let cells_before: Vec<_> = game.board().cells().clone();
    let player_before = game.current_player();
    assert!(!game.make_move(8)); // an empty cell, but the game is decided
    assert_eq!(game.board().cells(), &cells_before);
    assert_eq!(game.current_player(), player_before);
    assert_eq!(game.state(), GameState::Won(Player::Human));
}

#[test]
fn test_move_after_draw_changes_nothing() {
    let mut game = Game::new();
    for position in [0, 1, 2, 4, 3, 5, 7, 6, 8] {
        assert!(game.make_move(position));
    }
    assert_eq!(game.state(), GameState::Draw);
    assert!(!game.make_move(0));
    assert_eq!(game.state(), GameState::Draw);
}

#[test]
fn test_read_accessors_are_idempotent() {
    let mut game = Game::new();
    game.make_move(4);
    game.make_move(0);
    assert_eq!(game.state(), game.state());
    assert_eq!(game.current_player(), game.current_player());
    assert_eq!(game.available_moves(), game.available_moves());
}

#[test]
fn test_evaluate_scores() {
    let mut game = Game::new();
    assert_eq!(game.evaluate(), 0); // in progress
    // Human wins with top row
    game.make_move(0);
    game.make_move(3);
    game.make_move(1);
    game.make_move(4);
    game.make_move(2);
    assert_eq!(game.evaluate(), -10);

    let mut game = Game::new();
    // AI wins with left column
    game.make_move(1);
    game.make_move(0);
    game.make_move(2);
    game.make_move(3);
    game.make_move(4);
    game.make_move(6);
    assert_eq!(game.evaluate(), 10);

    let mut game = Game::new();
    for position in [0, 1, 2, 4, 3, 5, 7, 6, 8] {
        game.make_move(position);
    }
    assert_eq!(game.state(), GameState::Draw);
    assert_eq!(game.evaluate(), 0); // a draw scores zero as well
}

#[test]
fn test_from_board_derives_state() {
    let mut game = Game::new();
    // Human wins with top row
    game.make_move(0);
    game.make_move(3);
    game.make_move(1);
    game.make_move(4);
    game.make_move(2);
    let copy = rebuild(&game, Player::AI);
    assert_eq!(copy.state(), GameState::Won(Player::Human));
    assert_eq!(copy.current_player(), Player::AI);

    let fresh = Game::from_board(tic_tac_toe::board::Board::new(), Player::Human);
    assert_eq!(fresh.state(), GameState::InProgress);
}

fn rebuild(game: &Game, next: Player) -> Game {
    let mut board = tic_tac_toe::board::Board::new();
    for position in 0..9 {
        if let Some(tic_tac_toe::types::Cell::Occupied(p)) = game.board().get(position) {
            board.make_move(position, p);
        }
    }
    Game::from_board(board, next)
}

#[test]
fn test_check_winner() {
    let mut game = Game::new();
    assert!(!game.check_winner(Player::Human));
    assert!(!game.check_winner(Player::AI));
    game.make_move(0);
    game.make_move(3);
    game.make_move(1);
    game.make_move(4);
    game.make_move(2);
    assert!(game.check_winner(Player::Human));
    assert!(!game.check_winner(Player::AI));
}
