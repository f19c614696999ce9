use vstd::prelude::*;

verus! {

/// One of the two participants of a match. The human moves first and plays
/// `X`; the computer moves second and plays `O`.
#[derive(Debug, Clone, Copy, PartialEq, Eq, Structural)]
pub enum Player {
    /// The human participant.
    Human,
    /// The computer participant.
    AI,
}

impl Player {
    /// The other participant: the two players pair up with each other.
    pub open spec fn opponent_spec(&self) -> Player {
        match *self {
            Player::Human => Player::AI,
            Player::AI => Player::Human,
        }
    }

    /// Returns the opposite player.
    #[verifier::when_used_as_spec(opponent_spec)]
    pub fn opponent(&self) -> (r: Player)
        ensures
            r == self.opponent_spec(),
    {
        match *self {
            Player::Human => Player::AI,
            Player::AI => Player::Human,
        }
    }

    /// The glyph that renders this player's marks.
    pub open spec fn symbol_spec(&self) -> char {
        match *self {
            Player::Human => 'X',
            Player::AI => 'O',
        }
    }

    /// Returns the symbol representing this player.
    #[verifier::when_used_as_spec(symbol_spec)]
    pub fn symbol(&self) -> (r: char)
        ensures
            r == self.symbol_spec(),
    {
        match *self {
            Player::Human => 'X',
            Player::AI => 'O',
        }
    }
}

/// One cell of the grid: empty until a player marks it.
#[derive(Debug, Clone, Copy, PartialEq, Eq, Structural)]
pub enum Cell {
    /// No mark yet.
    Empty,
    /// Marked by the given player.
    Occupied(Player),
}

impl Cell {
    /// Whether the cell holds no mark.
    pub open spec fn is_empty_spec(&self) -> bool {
        *self == Cell::Empty
    }

    /// Returns true if the cell is empty.
    #[verifier::when_used_as_spec(is_empty_spec)]
    pub fn is_empty(&self) -> (r: bool)
        ensures
            r == self.is_empty_spec(),
    {
        matches!(self, Cell::Empty)
    }

    /// The glyph that renders this cell.
    pub open spec fn symbol_spec(&self) -> char {
        match *self {
            Cell::Empty => ' ',
            Cell::Occupied(player) => player.symbol_spec(),
        }
    }

    /// Returns the symbol representing this cell.
    #[verifier::when_used_as_spec(symbol_spec)]
    pub fn symbol(&self) -> (r: char)
        ensures
            r == self.symbol_spec(),
    {
        match *self {
            Cell::Empty => ' ',
            Cell::Occupied(player) => player.symbol(),
        }
    }
}

} // verus!
