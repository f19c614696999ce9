use vstd::prelude::*;

use crate::board::{avail_from, grid_full, lemma_num_empty_update, num_empty, num_empty_from, Board};
use crate::types::{Cell, Player};

verus! {

/// Represents the result of a match so far.
#[derive(Debug, Clone, Copy, PartialEq, Eq, Structural)]
pub enum GameState {
    /// Moves are still being accepted.
    InProgress,
    /// The given player completed a line.
    Won(Player),
    /// The grid filled up with no line completed.
    Draw,
}

/// Whether positions `a`, `b` and `c` of `s` all carry `p`'s mark.
pub open spec fn line_won(s: Seq<Cell>, a: int, b: int, c: int, p: Player) -> bool {
    s[a] == Cell::Occupied(p) && s[b] == Cell::Occupied(p) && s[c] == Cell::Occupied(p)
}

/// Whether `p` holds one of the eight winning lines: three rows, three
/// columns, two diagonals.
pub open spec fn wins(s: Seq<Cell>, p: Player) -> bool {
    ||| line_won(s, 0, 1, 2, p)
    ||| line_won(s, 3, 4, 5, p)
    ||| line_won(s, 6, 7, 8, p)
    ||| line_won(s, 0, 3, 6, p)
    ||| line_won(s, 1, 4, 7, p)
    ||| line_won(s, 2, 5, 8, p)
    ||| line_won(s, 0, 4, 8, p)
    ||| line_won(s, 2, 4, 6, p)
}

/// The state a grid determines: a completed line wins for its owner, a full
/// grid with no completed line is a draw, anything else is still in progress.
pub open spec fn outcome_of(s: Seq<Cell>) -> GameState {
    if wins(s, Player::Human) {
        GameState::Won(Player::Human)
    } else if wins(s, Player::AI) {
        GameState::Won(Player::AI)
    } else if grid_full(s) {
        GameState::Draw
    } else {
        GameState::InProgress
    }
}

/// The leaf score of a grid: +10 when the computer holds a line, -10 when
/// the human does, 0 otherwise.
pub open spec fn eval_spec(s: Seq<Cell>) -> int {
    if wins(s, Player::AI) {
        10
    } else if wins(s, Player::Human) {
        -10
    } else {
        0
    }
}

/// A game's state is `Won(p)` exactly when `p` holds a completed line, as
/// long as the two players do not both hold one (a grid with a line for
/// each side cannot arise from alternating play, but `from_board` accepts
/// it; there the human is preferred).
pub proof fn lemma_outcome_won_iff(game: &Game, p: Player)
    requires
        game.wf(),
        !(wins(game.grid(), Player::Human) && wins(game.grid(), Player::AI)),
    ensures
        game.result() == GameState::Won(p) <==> wins(game.grid(), p),
{
}

/// A game whose grid is full and gives neither player a completed line is
/// a draw.
pub proof fn lemma_full_without_winner_draws(game: &Game)
    requires
        game.wf(),
        grid_full(game.grid()),
        !wins(game.grid(), Player::Human),
        !wins(game.grid(), Player::AI),
    ensures
        game.result() == GameState::Draw,
{
}

/// The side whose turn it is on a grid reached by alternating play from an
/// empty grid: the human when an even number of marks has been placed, the
/// computer otherwise.
pub open spec fn side_to_move(s: Seq<Cell>) -> Player {
    if (9 - num_empty(s)) % 2 == 0 {
        Player::Human
    } else {
        Player::AI
    }
}

/// The human moves first: an empty grid has the human to move.
pub proof fn lemma_human_moves_first(s: Seq<Cell>)
    requires
        s.len() == 9,
        forall|i: int| 0 <= i < 9 ==> s[i] == Cell::Empty,
    ensures
        side_to_move(s) == Player::Human,
{
    reveal_with_fuel(num_empty_from, 11);
    assert(num_empty(s) == 9);
}

/// The active side strictly alternates along any run of successful moves:
/// whenever the side to move marks an empty cell, the turn passes to the
/// opponent. Together with `lemma_human_moves_first` and the contract of
/// `Game::make_move` this pins the whole alternation, from the first move
/// on, for as long as the game stays in progress.
pub proof fn lemma_turn_alternates(s: Seq<Cell>, position: int, mover: Player)
    requires
        s.len() == 9,
        0 <= position < 9,
        s[position] == Cell::Empty,
        mover == side_to_move(s),
    ensures
        side_to_move(s.update(position, Cell::Occupied(mover))) == mover.opponent_spec(),
{
    lemma_num_empty_update(s, position, mover, 0);
}

/// One step of the state machine, on the mathematical view of a game
/// (grid, player to move, state): exactly what `make_move` does. A move on
/// a decided game, at an occupied cell or off the grid changes nothing;
/// otherwise the mover's mark is placed, the state is recomputed, and the
/// turn passes to the opponent while the game stays in progress.
pub open spec fn step_spec(
    v: (Seq<Cell>, Player, GameState),
    position: int,
) -> (Seq<Cell>, Player, GameState) {
    if v.2 == GameState::InProgress && 0 <= position < 9 && v.0[position] == Cell::Empty {
        let grid = v.0.update(position, Cell::Occupied(v.1));
        let state = outcome_of(grid);
        let turn = if state == GameState::InProgress {
            v.1.opponent_spec()
        } else {
            v.1
        };
        (grid, turn, state)
    } else {
        v
    }
}

/// The view reached by attempting the given moves in order, starting
/// from `v`.
pub open spec fn replay(v: (Seq<Cell>, Player, GameState), moves: Seq<int>) -> (
    Seq<Cell>,
    Player,
    GameState,
)
    decreases moves.len(),
{
    if moves.len() == 0 {
        v
    } else {
        replay(step_spec(v, moves[0]), moves.drop_first())
    }
}

/// The view of a fresh game: an empty grid, the human to move, the game in
/// progress.
pub open spec fn initial_view() -> (Seq<Cell>, Player, GameState) {
    (Seq::new(9, |i: int| Cell::Empty), Player::Human, GameState::InProgress)
}

/// While a game is in progress, the player to move is the one the parity
/// of the marks placed so far dictates, starting from the human.
pub open spec fn turn_matches_parity(v: (Seq<Cell>, Player, GameState)) -> bool {
    &&& v.0.len() == 9
    &&& (v.2 == GameState::InProgress ==> v.1 == side_to_move(v.0))
}

/// A step of the state machine keeps the turn on the parity of the marks:
/// a rejected move changes nothing, and a successful one places one mark
/// and passes the turn.
pub proof fn lemma_step_keeps_parity(v: (Seq<Cell>, Player, GameState), position: int)
    requires
        turn_matches_parity(v),
    ensures
        turn_matches_parity(step_spec(v, position)),
{
    if v.2 == GameState::InProgress && 0 <= position < 9 && v.0[position] == Cell::Empty {
        lemma_turn_alternates(v.0, position, v.1);
    }
}

/// For every sequence of attempted moves from a fresh game, legal or not:
/// while the game is in progress the active side is the human after an
/// even number of marks and the computer after an odd number. Since every
/// accepted move places exactly one mark, the active side strictly
/// alternates, starting from the human.
pub proof fn lemma_active_side_alternates(moves: Seq<int>)
    ensures
        turn_matches_parity(replay(initial_view(), moves)),
{
    lemma_human_moves_first(initial_view().0);
    lemma_replay_keeps_parity(initial_view(), moves);
}

/// Replaying any move sequence preserves the parity correspondence.
pub proof fn lemma_replay_keeps_parity(v: (Seq<Cell>, Player, GameState), moves: Seq<int>)
    requires
        turn_matches_parity(v),
    ensures
        turn_matches_parity(replay(v, moves)),
    decreases moves.len(),
{
    if moves.len() > 0 {
        lemma_step_keeps_parity(v, moves[0]);
        lemma_replay_keeps_parity(step_spec(v, moves[0]), moves.drop_first());
    }
}

/// Marking an empty cell for `p` never completes a line for the other
/// player.
pub proof fn lemma_move_cannot_win_for_other(s: Seq<Cell>, j: int, p: Player, q: Player)
    requires
        s.len() == 9,
        0 <= j < 9,
        s[j] == Cell::Empty,
        p != q,
        !wins(s, q),
    ensures
        !wins(s.update(j, Cell::Occupied(p)), q),
{
}

/// The match: a grid, the player whose turn it is, and the derived state.
pub struct Game {
    board: Board,
    current_player: Player,
    state: GameState,
}

impl View for Game {
    /// The grid's cells, the player to move, and the recorded state.
    type V = (Seq<Cell>, Player, GameState);

    closed spec fn view(&self) -> (Seq<Cell>, Player, GameState) {
        (self.board@, self.current_player, self.state)
    }
}

impl Game {
    /// The grid's cells.
    pub open spec fn grid(&self) -> Seq<Cell> {
        self@.0
    }

    /// The player whose turn it is.
    pub open spec fn turn(&self) -> Player {
        self@.1
    }

    /// The recorded state.
    pub open spec fn result(&self) -> GameState {
        self@.2
    }

    /// The grid has nine cells and the recorded state is the one the grid
    /// determines.
    pub open spec fn wf(&self) -> bool {
        &&& self.grid().len() == 9
        &&& self.result() == outcome_of(self.grid())
    }

    /// Creates a new game on an empty grid with the human to move.
    pub fn new() -> (r: Game)
        ensures
            r.wf(),
            forall|i: int| 0 <= i < 9 ==> r.grid()[i] == Cell::Empty,
            r.turn() == Player::Human,
            r.result() == GameState::InProgress,
            r@ == initial_view(),
    {
        let board = Board::new();
        proof {
            assert(board@ =~= initial_view().0);
        }
        Game { board, current_player: Player::Human, state: GameState::InProgress }
    }

    /// Creates a game from an existing grid and the player to move next;
    /// the state is derived from the grid at once.
    pub fn from_board(board: Board, current_player: Player) -> (r: Game)
        requires
            board.wf(),
        ensures
            r.wf(),
            r.grid() == board@,
            r.turn() == current_player,
    {
        let state = Self::derive_state(&board);
        Game { board, current_player, state }
    }

    /// Computes the state a grid determines.
    fn derive_state(board: &Board) -> (r: GameState)
        requires
            board.wf(),
        ensures
            r == outcome_of(board@),
    {
        if Self::board_wins(board, Player::Human) {
            GameState::Won(Player::Human)
        } else if Self::board_wins(board, Player::AI) {
            GameState::Won(Player::AI)
        } else if board.is_full() {
            GameState::Draw
        } else {
            GameState::InProgress
        }
    }

    /// Checks the eight winning lines of `board` for `player`.
    fn board_wins(board: &Board, player: Player) -> (r: bool)
        requires
            board.wf(),
        ensures
            r == wins(board@, player),
    {
        let c = board.cells();
        let target = Cell::Occupied(player);
        if c[0] == target && c[1] == target && c[2] == target {
            return true;
        }
        if c[3] == target && c[4] == target && c[5] == target {
            return true;
        }
        if c[6] == target && c[7] == target && c[8] == target {
            return true;
        }
        if c[0] == target && c[3] == target && c[6] == target {
            return true;
        }
        if c[1] == target && c[4] == target && c[7] == target {
            return true;
        }
        if c[2] == target && c[5] == target && c[8] == target {
            return true;
        }
        if c[0] == target && c[4] == target && c[8] == target {
            return true;
        }
        if c[2] == target && c[4] == target && c[6] == target {
            return true;
        }
        false
    }

    /// Read access to the grid.
    pub fn board(&self) -> (r: &Board)
        ensures
            r@ == self.grid(),
    {
        &self.board
    }

    /// The player whose turn it is.
    pub fn current_player(&self) -> (r: Player)
        ensures
            r == self.turn(),
    {
        self.current_player
    }

    /// The recorded state.
    pub fn state(&self) -> (r: GameState)
        ensures
            r == self.result(),
    {
        self.state
    }

    /// Attempts a move at `position` for the player whose turn it is.
    /// Succeeds exactly when the game is still in progress and the position
    /// is on the grid and empty. On success the mark is placed, the state is
    /// recomputed, and — while the game stays in progress — the turn passes
    /// to the opponent. On failure nothing changes.
    pub fn make_move(&mut self, position: usize) -> (r: bool)
        requires
            old(self).wf(),
        ensures
            final(self).wf(),
            r == (old(self).result() == GameState::InProgress && position < 9 && old(self).grid()[
                position as int
            ] == Cell::Empty),
            r ==> final(self).grid() == old(self).grid().update(
                position as int,
                Cell::Occupied(old(self).turn()),
            ),
            r && final(self).result() == GameState::InProgress ==> final(self).turn() == old(
                self,
            ).turn().opponent_spec(),
            r && final(self).result() != GameState::InProgress ==> final(self).turn() == old(
                self,
            ).turn(),
            !r ==> final(self)@ == old(self)@,
            final(self)@ == step_spec(old(self)@, position as int),
    {
        if self.state != GameState::InProgress {
            return false;
        }
        let mover = self.current_player;
        if !self.board.make_move(position, mover) {
            return false;
        }
        proof {
            lemma_move_cannot_win_for_other(
                old(self).grid(),
                position as int,
                mover,
                mover.opponent_spec(),
            );
        }
        self.update_state();
        if self.state == GameState::InProgress {
            self.current_player = self.current_player.opponent();
        }
        true
    }

    /// Recomputes the state after a placement: a completed line for the
    /// player who just moved wins, a full grid draws.
    fn update_state(&mut self)
        requires
            old(self).board.wf(),
            !wins(old(self).board@, old(self).current_player.opponent_spec()),
        ensures
            final(self).board == old(self).board,
            final(self).current_player == old(self).current_player,
            final(self).state == outcome_of(final(self).board@),
    {
        if Self::board_wins(&self.board, self.current_player) {
            self.state = GameState::Won(self.current_player);
            return;
        }
        if self.board.is_full() {
            self.state = GameState::Draw;
        } else {
            self.state = GameState::InProgress;
        }
    }

    /// Whether `player` holds one of the eight winning lines.
    pub fn check_winner(&self, player: Player) -> (r: bool)
        requires
            self.wf(),
        ensures
            r == wins(self.grid(), player),
    {
        Self::board_wins(&self.board, player)
    }

    /// Returns every empty position, in ascending index order.
    pub fn available_moves(&self) -> (r: Vec<usize>)
        requires
            self.wf(),
        ensures
            r@ == avail_from(self.grid(), 0),
            forall|k: int|
                0 <= k < r@.len() ==> #[trigger] r@[k] < 9 && self.grid()[r@[k] as int]
                    == Cell::Empty,
            forall|k: int, l: int| 0 <= k < l < r@.len() ==> r@[k] < r@[l],
            forall|p: int|
                0 <= p < 9 && self.grid()[p] == Cell::Empty ==> r@.contains(p as usize),
    {
        self.board.available_moves()
    }

    /// The leaf score the search reads off a position: +10 when the
    /// computer holds a line, -10 when the human does, 0 otherwise.
    pub fn evaluate(&self) -> (r: i32)
        requires
            self.wf(),
        ensures
            r == eval_spec(self.grid()),
    {
        if self.check_winner(Player::AI) {
            10
        } else if self.check_winner(Player::Human) {
            -10
        } else {
            0
        }
    }
}

impl Default for Game {
    /// A fresh game: empty grid, human to move.
    fn default() -> (r: Game)
        ensures
            r.wf(),
            forall|i: int| 0 <= i < 9 ==> r.grid()[i] == Cell::Empty,
            r.turn() == Player::Human,
            r.result() == GameState::InProgress,
    {
        Game::new()
    }
}

} // verus!
