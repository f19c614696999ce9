use vstd::prelude::*;

use crate::types::{Cell, Player};

verus! {

/// Whether every one of the nine positions of `s` carries a mark.
pub open spec fn grid_full(s: Seq<Cell>) -> bool {
    forall|i: int| 0 <= i < 9 ==> s[i] != Cell::Empty
}

/// The empty positions of `s` at index `i` and above, in ascending order.
pub open spec fn avail_from(s: Seq<Cell>, i: int) -> Seq<usize>
    decreases 9 - i,
{
    if i < 0 || i >= 9 {
        Seq::empty()
    } else if s[i] == Cell::Empty {
        seq![i as usize] + avail_from(s, i + 1)
    } else {
        avail_from(s, i + 1)
    }
}

/// `avail_from` lists exactly the empty positions in `[i, 9)`, each once,
/// in strictly ascending order.
pub proof fn lemma_avail_from_props(s: Seq<Cell>, i: int)
    requires
        0 <= i <= 9,
    ensures
        forall|k: int|
            0 <= k < avail_from(s, i).len() ==> i <= #[trigger] avail_from(s, i)[k] < 9
                && s[avail_from(s, i)[k] as int] == Cell::Empty,
        forall|k: int, l: int|
            0 <= k < l < avail_from(s, i).len() ==> avail_from(s, i)[k] < avail_from(s, i)[l],
        forall|p: int|
            i <= p < 9 && s[p] == Cell::Empty ==> avail_from(s, i).contains(p as usize),
    decreases 9 - i,
{
    if i < 9 {
        lemma_avail_from_props(s, i + 1);
        if s[i] == Cell::Empty {
            let rest = avail_from(s, i + 1);
            let whole = avail_from(s, i);
            assert(whole == seq![i as usize] + rest);
            assert(whole[0] == i as usize);
            assert forall|k: int| 1 <= k < whole.len() implies whole[k] == rest[k - 1] by {}
            assert forall|p: int| i <= p < 9 && s[p] == Cell::Empty implies whole.contains(
                p as usize,
            ) by {
                if p == i {
                    assert(whole[0] == p as usize);
                } else {
                    let k = choose|k: int| 0 <= k < rest.len() && #[trigger] rest[k] == p as usize;
                    assert(whole[k + 1] == p as usize);
                }
            }
        } else {
            assert forall|p: int| i <= p < 9 && s[p] == Cell::Empty implies avail_from(
                s,
                i,
            ).contains(p as usize) by {
                let k = choose|k: int|
                    0 <= k < avail_from(s, i + 1).len() && #[trigger] avail_from(s, i + 1)[k]
                        == p as usize;
                assert(avail_from(s, i)[k] == p as usize);
            }
        }
    }
}

/// How many of the positions of `s` at index `i` and above are empty.
pub open spec fn num_empty_from(s: Seq<Cell>, i: int) -> nat
    decreases 9 - i,
{
    if i < 0 || i >= 9 {
        0
    } else if s[i] == Cell::Empty {
        num_empty_from(s, i + 1) + 1
    } else {
        num_empty_from(s, i + 1)
    }
}

/// How many of the nine positions of `s` are empty.
pub open spec fn num_empty(s: Seq<Cell>) -> nat {
    num_empty_from(s, 0)
}

/// Marking an empty cell lowers the count of empty positions by one and
/// leaves counts past the marked cell alone.
pub proof fn lemma_num_empty_update(s: Seq<Cell>, j: int, p: Player, i: int)
    requires
        s.len() == 9,
        0 <= i,
        0 <= j < 9,
        s[j] == Cell::Empty,
    ensures
        i <= j ==> num_empty_from(s.update(j, Cell::Occupied(p)), i) + 1 == num_empty_from(s, i),
        i > j ==> num_empty_from(s.update(j, Cell::Occupied(p)), i) == num_empty_from(s, i),
    decreases 9 - i,
{
    if i < 9 {
        lemma_num_empty_update(s, j, p, i + 1);
    }
}

/// At most `9 - i` positions at index `i` and above are empty.
pub proof fn lemma_num_empty_bound(s: Seq<Cell>, i: int)
    requires
        0 <= i <= 9,
    ensures
        num_empty_from(s, i) <= 9 - i,
    decreases 9 - i,
{
    if i < 9 {
        lemma_num_empty_bound(s, i + 1);
    }
}

/// The 3-by-3 playing surface, stored row-major as nine cells
/// (index = row * 3 + column).
#[derive(Debug, Clone)]
pub struct Board {
    cells: Vec<Cell>,
}

impl View for Board {
    type V = Seq<Cell>;

    closed spec fn view(&self) -> Seq<Cell> {
        self.cells@
    }
}

impl Board {
    /// A board always holds exactly nine cells.
    pub open spec fn wf(&self) -> bool {
        self@.len() == 9
    }

    /// Creates a new board with every cell empty.
    pub fn new() -> (r: Board)
        ensures
            r.wf(),
            forall|i: int| 0 <= i < 9 ==> r@[i] == Cell::Empty,
    {
        let mut cells: Vec<Cell> = Vec::new();
        let mut i: usize = 0;
        while i < 9
            invariant
                i <= 9,
                cells@.len() == i,
                forall|j: int| 0 <= j < i ==> cells@[j] == Cell::Empty,
            decreases 9 - i,
        {
            cells.push(Cell::Empty);
            i = i + 1;
        }
        Board { cells }
    }

    /// Returns the cell at `position`, or nothing when `position` lies
    /// outside the grid.
    pub fn get(&self, position: usize) -> (r: Option<Cell>)
        ensures
            position < self@.len() ==> r == Some(self@[position as int]),
            position >= self@.len() ==> r is None,
    {
        if position < self.cells.len() {
            Some(self.cells[position])
        } else {
            None
        }
    }

    /// Places `player`'s mark at `position`. Succeeds exactly when the
    /// position is on the grid and still empty; on failure nothing changes.
    pub fn make_move(&mut self, position: usize, player: Player) -> (r: bool)
        requires
            old(self).wf(),
        ensures
            final(self).wf(),
            r == (position < 9 && old(self)@[position as int] == Cell::Empty),
            r ==> final(self)@ == old(self)@.update(position as int, Cell::Occupied(player)),
            !r ==> final(self)@ == old(self)@,
    {
        if position >= 9 {
            return false;
        }
        if self.cells[position].is_empty() {
            self.cells[position] = Cell::Occupied(player);
            true
        } else {
            false
        }
    }

    /// Returns every empty position, in ascending index order.
    pub fn available_moves(&self) -> (r: Vec<usize>)
        requires
            self.wf(),
        ensures
            r@ == avail_from(self@, 0),
            forall|k: int|
                0 <= k < r@.len() ==> #[trigger] r@[k] < 9 && self@[r@[k] as int] == Cell::Empty,
            forall|k: int, l: int| 0 <= k < l < r@.len() ==> r@[k] < r@[l],
            forall|p: int| 0 <= p < 9 && self@[p] == Cell::Empty ==> r@.contains(p as usize),
    {
        let mut r: Vec<usize> = Vec::new();
        let mut i: usize = 0;
        while i < 9
            invariant
                self.wf(),
                i <= 9,
                r@ + avail_from(self@, i as int) == avail_from(self@, 0),
            decreases 9 - i,
        {
            if self.cells[i].is_empty() {
                proof {
                    assert(avail_from(self@, i as int) =~= seq![i as usize] + avail_from(
                        self@,
                        i as int + 1,
                    ));
                }
                let ghost r_old = r@;
                r.push(i);
                proof {
                    assert(r@ + avail_from(self@, i as int + 1) =~= r_old + avail_from(
                        self@,
                        i as int,
                    ));
                }
            }
            i = i + 1;
        }
        proof {
            assert(r@ =~= avail_from(self@, 0));
            lemma_avail_from_props(self@, 0);
        }
        r
    }

    /// Returns true when no empty position is left.
    pub fn is_full(&self) -> (r: bool)
        requires
            self.wf(),
        ensures
            r == grid_full(self@),
    {
        let mut i: usize = 0;
        while i < 9
            invariant
                self.wf(),
                i <= 9,
                forall|j: int| 0 <= j < i ==> self@[j] != Cell::Empty,
            decreases 9 - i,
        {
            if self.cells[i].is_empty() {
                return false;
            }
            i = i + 1;
        }
        true
    }

    /// Read access to the nine cells.
    pub fn cells(&self) -> (r: &Vec<Cell>)
        ensures
            r@ == self@,
    {
        &self.cells
    }
}

impl Default for Board {
    /// An empty board.
    fn default() -> (r: Board)
        ensures
            r.wf(),
            forall|i: int| 0 <= i < 9 ==> r@[i] == Cell::Empty,
    {
        Board::new()
    }
}

} // verus!
