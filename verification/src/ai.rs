use vstd::prelude::*;

use crate::board::{avail_from, grid_full, lemma_num_empty_bound, lemma_num_empty_update, num_empty, Board};
use crate::game::{wins, Game};
use crate::types::{Cell, Player};

verus! {

/// The mark the side to move places: the computer when maximizing, the
/// human when minimizing.
pub open spec fn mark_of(maximizing: bool) -> Player {
    if maximizing {
        Player::AI
    } else {
        Player::Human
    }
}

/// The value of grid `s`, `depth` plies below the real position, when both
/// sides play out the rest of the game perfectly: the computer maximizes
/// and the human minimizes. A computer win counts `10 - depth` (sooner is
/// better), a human win `-10 + depth` (later is better), a full grid 0.
pub open spec fn minimax_spec(s: Seq<Cell>, depth: int, maximizing: bool) -> int
    decreases num_empty(s), 10int,
        when s.len() == 9
{
    if wins(s, Player::AI) {
        10 - depth
    } else if wins(s, Player::Human) {
        -10 + depth
    } else if grid_full(s) {
        0
    } else {
        best_upto(s, depth, maximizing, 9)
    }
}

/// The best value the side to move can reach by marking one of the empty
/// positions of `s` below index `i`; when none is empty the identity of the
/// comparison (-100 when maximizing, 100 when minimizing).
pub open spec fn best_upto(s: Seq<Cell>, depth: int, maximizing: bool, i: int) -> int
    decreases num_empty(s), i,
        when 0 <= i <= 9 && s.len() == 9
        via best_upto_decreases
{
    if i <= 0 {
        if maximizing {
            -100
        } else {
            100
        }
    } else if s[i - 1] == Cell::Empty {
        let child = minimax_spec(
            s.update(i - 1, Cell::Occupied(mark_of(maximizing))),
            depth + 1,
            !maximizing,
        );
        let rest = best_upto(s, depth, maximizing, i - 1);
        if maximizing {
            if child > rest {
                child
            } else {
                rest
            }
        } else {
            if child < rest {
                child
            } else {
                rest
            }
        }
    } else {
        best_upto(s, depth, maximizing, i - 1)
    }
}

#[via_fn]
proof fn best_upto_decreases(s: Seq<Cell>, depth: int, maximizing: bool, i: int) {
    if 0 < i <= 9 && s.len() == 9 && s[i - 1] == Cell::Empty {
        lemma_num_empty_update(s, i - 1, mark_of(maximizing), 0);
    }
}

/// The value of answering grid `s` with a computer mark at `p`, scored one
/// ply down with the human to reply.
pub open spec fn root_score(s: Seq<Cell>, p: usize) -> int {
    minimax_spec(s.update(p as int, Cell::Occupied(Player::AI)), 1, false)
}

/// The computer player: picks its moves by exhaustive adversarial search.
pub struct AI {
    player: Player,
}

impl AI {
    /// The search always acts for the computer side.
    pub closed spec fn wf(&self) -> bool {
        self.player == Player::AI
    }

    /// Creates a new search instance for the computer side.
    pub fn new() -> (r: AI)
        ensures
            r.wf(),
    {
        AI { player: Player::AI }
    }

    /// Picks the computer's move: of all empty positions, the one whose
    /// answer scores highest under perfect play by both sides, and of the
    /// optimal ones the lowest-indexed. Returns nothing only on a full grid.
    pub fn find_best_move(&self, game: &Game) -> (r: Option<usize>)
        requires
            self.wf(),
            game.wf(),
        ensures
            r is None <==> grid_full(game.grid()),
            (match r {
                Option::None => true,
                Option::Some(p) => {
                    &&& p < 9
                    &&& game.grid()[p as int] == Cell::Empty
                    &&& forall|q: usize|
                        q < 9 && game.grid()[q as int] == Cell::Empty ==> #[trigger] root_score(
                            game.grid(),
                            q,
                        ) <= root_score(game.grid(), p)
                    &&& forall|q: usize|
                        q < p && game.grid()[q as int] == Cell::Empty ==> #[trigger] root_score(
                            game.grid(),
                            q,
                        ) < root_score(game.grid(), p)
                },
            }),
    {
        let available_moves = game.available_moves();
        if available_moves.len() == 0 {
            proof {
                assert forall|p: int| 0 <= p < 9 implies game.grid()[p] != Cell::Empty by {
                    if game.grid()[p] == Cell::Empty {
                        assert(available_moves@.contains(p as usize));
                    }
                }
            }
            return None;
        }
        let ghost s = game.grid();
        let mut best_move = available_moves[0];
        let first_game = self.simulate_move(game, best_move, self.player);
        proof {
            lemma_num_empty_bound(s, 0);
            lemma_num_empty_update(s, best_move as int, Player::AI, 0);
        }
        let mut best_score = self.minimax(&first_game, 1, false);
        let ghost mut best_at: int = 0;
        let mut j: usize = 1;
        while j < available_moves.len()
            invariant
                self.wf(),
                game.wf(),
                s == game.grid(),
                available_moves@ == avail_from(s, 0),
                forall|k: int|
                    0 <= k < available_moves@.len() ==> #[trigger] available_moves@[k] < 9 && s[
                        available_moves@[k] as int
                    ] == Cell::Empty,
                forall|k: int, l: int|
                    0 <= k < l < available_moves@.len() ==> available_moves@[k]
                        < available_moves@[l],
                1 <= j <= available_moves@.len(),
                0 <= best_at < j,
                best_move == available_moves@[best_at],
                best_score == root_score(s, best_move),
                forall|k: int|
                    0 <= k < j ==> #[trigger] root_score(s, available_moves@[k]) <= best_score,
                forall|k: int|
                    0 <= k < best_at ==> #[trigger] root_score(s, available_moves@[k])
                        < best_score,
            decreases available_moves@.len() - j,
        {
            let position = available_moves[j];
            let next_game = self.simulate_move(game, position, self.player);
            proof {
                lemma_num_empty_bound(s, 0);
                lemma_num_empty_update(s, position as int, Player::AI, 0);
            }
            let score = self.minimax(&next_game, 1, false);
            if score > best_score {
                best_score = score;
                best_move = position;
                proof {
                    best_at = j as int;
                }
            }
            j = j + 1;
        }
        proof {
            assert forall|q: usize| q < 9 && s[q as int] == Cell::Empty implies #[trigger]
            root_score(s, q) <= root_score(s, best_move) by {
                assert(available_moves@.contains(q));
                let k = choose|k: int|
                    0 <= k < available_moves@.len() && #[trigger] available_moves@[k] == q;
                assert(root_score(s, available_moves@[k]) <= best_score);
            }
            assert forall|q: usize| q < best_move && s[q as int] == Cell::Empty implies #[trigger]
            root_score(s, q) < root_score(s, best_move) by {
                assert(available_moves@.contains(q));
                let k = choose|k: int|
                    0 <= k < available_moves@.len() && #[trigger] available_moves@[k] == q;
                if k < best_at {
                    assert(root_score(s, available_moves@[k]) < best_score);
                } else {
                    assert(available_moves@[best_at] <= available_moves@[k]);
                }
            }
        }
        Some(best_move)
    }

    /// Scores a position by playing out every continuation: the side to
    /// move tries each empty position in ascending order and takes the best
    /// child value — the maximum for the computer, the minimum for the
    /// human.
    fn minimax(&self, game: &Game, depth: i32, is_maximizing: bool) -> (r: i32)
        requires
            game.wf(),
            0 <= depth,
            depth + num_empty(game.grid()) <= 10,
        ensures
            r == minimax_spec(game.grid(), depth as int, is_maximizing),
        decreases num_empty(game.grid()),
    {
        let score = game.evaluate();
        if score == 10 {
            return score - depth;
        }
        if score == -10 {
            return score + depth;
        }
        if game.board().is_full() {
            return 0;
        }
        let ghost s = game.grid();
        let mut best: i32 = if is_maximizing {
            -100
        } else {
            100
        };
        let mut i: usize = 0;
        while i < 9
            invariant
                game.wf(),
                s == game.grid(),
                0 <= depth,
                depth + num_empty(s) <= 10,
                !wins(s, Player::AI),
                !wins(s, Player::Human),
                !grid_full(s),
                i <= 9,
                best == best_upto(s, depth as int, is_maximizing, i as int),
            decreases 9 - i,
        {
            let is_open = match game.board().get(i) {
                Some(Cell::Empty) => true,
                _ => false,
            };
            if is_open {
                let mover = if is_maximizing {
                    Player::AI
                } else {
                    Player::Human
                };
                let next_game = self.simulate_move(game, i, mover);
                proof {
                    lemma_num_empty_update(s, i as int, mover, 0);
                }
                let score = self.minimax(&next_game, depth + 1, !is_maximizing);
                if is_maximizing {
                    if score > best {
                        best = score;
                    }
                } else {
                    if score < best {
                        best = score;
                    }
                }
            }
            i = i + 1;
        }
        best
    }

    /// Builds the hypothetical next state: an independent copy of `game`'s
    /// grid with `player`'s mark added at `position` and the opponent to
    /// move. The real game is never touched.
    fn simulate_move(&self, game: &Game, position: usize, player: Player) -> (r: Game)
        requires
            game.wf(),
            position < 9,
            game.grid()[position as int] == Cell::Empty,
        ensures
            r.wf(),
            r.grid() == game.grid().update(position as int, Cell::Occupied(player)),
            r.turn() == player.opponent_spec(),
    {
        let mut new_board = Board::new();
        let mut i: usize = 0;
        while i < 9
            invariant
                game.wf(),
                new_board.wf(),
                i <= 9,
                forall|j: int| 0 <= j < i ==> new_board@[j] == game.grid()[j],
                forall|j: int| i <= j < 9 ==> new_board@[j] == Cell::Empty,
            decreases 9 - i,
        {
            match game.board().get(i) {
                Some(Cell::Occupied(p)) => {
                    let placed = new_board.make_move(i, p);
                    assert(placed);
                },
                _ => {},
            }
            i = i + 1;
        }
        let placed = new_board.make_move(position, player);
        assert(placed);
        proof {
            assert(new_board@ =~= game.grid().update(position as int, Cell::Occupied(player)));
        }
        self.create_game_from_board(new_board, player.opponent())
    }

    /// Wraps the grid and the player to move next into a match value.
    fn create_game_from_board(&self, board: Board, next_player: Player) -> (r: Game)
        requires
            board.wf(),
        ensures
            r.wf(),
            r.grid() == board@,
            r.turn() == next_player,
    {
        Game::from_board(board, next_player)
    }
}

impl Default for AI {
    /// A search instance for the computer side.
    fn default() -> (r: AI)
        ensures
            r.wf(),
    {
        AI::new()
    }
}

} // verus!
