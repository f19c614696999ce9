//! One test per winning line and side: the state becomes `Won` for exactly
//! the side that completed the line.

use tic_tac_toe::game::{Game, GameState};
use tic_tac_toe::types::Player;

fn play(moves: &[usize]) -> Game {
    let mut game = Game::new();
    for &position in moves {
        assert!(game.make_move(position));
    }
    game
}

#[test]
fn test_human_wins_row_top() {
    let game = play(&[0, 3, 1, 4, 2]);
    assert_eq!(game.state(), GameState::Won(Player::Human));
}

#[test]
fn test_human_wins_row_middle() {
    let game = play(&[3, 0, 4, 1, 5]);
    assert_eq!(game.state(), GameState::Won(Player::Human));
}

#[test]
fn test_human_wins_row_bottom() {
    let game = play(&[6, 0, 7, 1, 8]);
    assert_eq!(game.state(), GameState::Won(Player::Human));
}

#[test]
fn test_human_wins_col_left() {
    let game = play(&[0, 1, 3, 2, 6]);
    assert_eq!(game.state(), GameState::Won(Player::Human));
}

#[test]
fn test_human_wins_col_middle() {
    let game = play(&[1, 0, 4, 2, 7]);
    assert_eq!(game.state(), GameState::Won(Player::Human));
}

#[test]
fn test_human_wins_col_right() {
    let game = play(&[2, 0, 5, 1, 8]);
    assert_eq!(game.state(), GameState::Won(Player::Human));
}

#[test]
fn test_human_wins_diag_main() {
    let game = play(&[0, 1, 4, 2, 8]);
    assert_eq!(game.state(), GameState::Won(Player::Human));
}

#[test]
fn test_human_wins_diag_anti() {
    let game = play(&[2, 0, 4, 1, 6]);
    assert_eq!(game.state(), GameState::Won(Player::Human));
}

#[test]
fn test_ai_wins_row_top() {
    let game = play(&[3, 0, 4, 1, 6, 2]);
    assert_eq!(game.state(), GameState::Won(Player::AI));
}

#[test]
fn test_ai_wins_row_middle() {
    let game = play(&[0, 3, 1, 4, 6, 5]);
    assert_eq!(game.state(), GameState::Won(Player::AI));
}

#[test]
fn test_ai_wins_row_bottom() {
    let game = play(&[0, 6, 1, 7, 3, 8]);
    assert_eq!(game.state(), GameState::Won(Player::AI));
}

#[test]
fn test_ai_wins_col_left() {
    let game = play(&[1, 0, 2, 3, 4, 6]);
    assert_eq!(game.state(), GameState::Won(Player::AI));
}

#[test]
fn test_ai_wins_col_middle() {
    let game = play(&[0, 1, 2, 4, 3, 7]);
    assert_eq!(game.state(), GameState::Won(Player::AI));
}

#[test]
fn test_ai_wins_col_right() {
    let game = play(&[0, 2, 1, 5, 3, 8]);
    assert_eq!(game.state(), GameState::Won(Player::AI));
}

#[test]
fn test_ai_wins_diag_main() {
    let game = play(&[1, 0, 2, 4, 3, 8]);
    assert_eq!(game.state(), GameState::Won(Player::AI));
}

#[test]
fn test_ai_wins_diag_anti() {
    let game = play(&[0, 2, 1, 4, 3, 6]);
    assert_eq!(game.state(), GameState::Won(Player::AI));
}
