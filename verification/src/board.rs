//! The playing field: a fixed grid of cells and its occupancy queries.

use vstd::prelude::*;
use crate::shape::MinoType;

verus! {

pub const GRID_WIDTH: u16 = 10;

pub const GRID_HEIGHT: u16 = 24;

/// What one square of the grid holds.
#[derive(Debug, Clone, Copy, PartialEq, Eq, Structural)]
pub enum Cell {
    /// A locked block, coloured by the shape it came from.
    Mino(MinoType),
    /// The landing preview of the active piece; drawn over the grid, never stored in it.
    Shadow,
    /// Reserved for garbage rows.
    _Garbage,
    Empty,
}

impl Cell {
    pub fn is_empty(&self) -> (empty: bool)
        ensures
            empty == (*self is Empty),
    {
        matches!(self, Cell::Empty)
    }
}

/// True iff `(x, y)` names a square of the grid.
pub open spec fn in_bounds(x: int, y: int) -> bool {
    0 <= x < GRID_WIDTH && 0 <= y < GRID_HEIGHT
}

/// True iff every square of the row is occupied.
pub open spec fn row_full(row: Seq<Cell>) -> bool {
    forall|x: int| 0 <= x < row.len() ==> !(#[trigger] row[x] is Empty)
}

/// A row with no block in it.
pub open spec fn empty_row() -> Seq<Cell> {
    Seq::new(GRID_WIDTH as nat, |x: int| Cell::Empty)
}

/// The rows of a grid, bottom first, each row left to right.
pub type Rows = Seq<Seq<Cell>>;

/// True iff `rows` has the dimensions of the grid.
pub open spec fn grid_shaped(rows: Rows) -> bool {
    &&& rows.len() == GRID_HEIGHT
    &&& forall|y: int| 0 <= y < rows.len() ==> (#[trigger] rows[y]).len() == GRID_WIDTH
}

/// True iff the rows hold only locked blocks and empty squares.
pub open spec fn settled(rows: Rows) -> bool {
    forall|x: int, y: int|
        0 <= y < rows.len() && 0 <= x < rows[y].len() ==> (#[trigger] rows[y][x] is Mino)
            || rows[y][x] is Empty
}

/// The rows that stay when the full ones are taken out, in their old order.
pub open spec fn kept_rows(rows: Rows) -> Rows {
    rows.filter(|row: Seq<Cell>| !row_full(row))
}

/// The rows after a line clear: the rows that are not full, in their old order from
/// the bottom, and above them one empty row for each full row that went.
pub open spec fn cleared(rows: Rows) -> Rows {
    let kept = kept_rows(rows);
    kept + Seq::new((rows.len() - kept.len()) as nat, |i: int| empty_row())
}

/// Number of full rows among the rows below row `y`.
pub open spec fn full_rows_below(rows: Rows, y: int) -> int
    decreases y,
{
    if y <= 0 {
        0
    } else {
        full_rows_below(rows, y - 1) + if row_full(rows[y - 1]) {
            1int
        } else {
            0int
        }
    }
}

/// Clearing `row` followed by `tail` gives what clearing `tail` gives, with `row` put
/// under it if it is not full and an empty row put on top if it is.
pub proof fn lemma_cleared_prepend(row: Seq<Cell>, tail: Rows)
    ensures
        cleared(seq![row] + tail) == if row_full(row) {
            cleared(tail).push(empty_row())
        } else {
            seq![row] + cleared(tail)
        },
{
    let pred = |r: Seq<Cell>| !row_full(r);
    Seq::filter_distributes_over_add(seq![row], tail, pred);
    assert(seq![row].filter(pred) == if row_full(row) {
        Seq::<Seq<Cell>>::empty()
    } else {
        seq![row]
    }) by {
        reveal_with_fuel(Seq::filter, 2);
        assert(seq![row].drop_last() =~= Seq::<Seq<Cell>>::empty());
        assert(Seq::<Seq<Cell>>::empty().push(row) =~= seq![row]);
    }
    tail.lemma_filter_len(pred);
    if row_full(row) {
        assert(cleared(seq![row] + tail) =~= cleared(tail).push(empty_row()));
    } else {
        assert(cleared(seq![row] + tail) =~= seq![row] + cleared(tail));
    }
}

/// The rows that stay among the first `n` rows number `n` less the full rows among
/// them, and they are the first rows that stay of the whole grid.
pub proof fn lemma_kept_prefix(rows: Rows, n: int)
    requires
        0 <= n <= rows.len(),
    ensures
        kept_rows(rows.take(n)).len() == n - full_rows_below(rows, n),
        kept_rows(rows.take(n)).len() <= kept_rows(rows).len(),
        kept_rows(rows.take(n)) == kept_rows(rows).take(kept_rows(rows.take(n)).len() as int),
    decreases n,
{
    let pred = |r: Seq<Cell>| !row_full(r);
    assert(rows =~= rows.take(n) + rows.skip(n));
    Seq::filter_distributes_over_add(rows.take(n), rows.skip(n), pred);
    assert(kept_rows(rows).take(kept_rows(rows.take(n)).len() as int) =~= kept_rows(rows.take(n)));
    if n > 0 {
        lemma_kept_prefix(rows, n - 1);
        assert(rows.take(n).drop_last() =~= rows.take(n - 1));
        reveal_with_fuel(Seq::filter, 2);
    } else {
        reveal_with_fuel(Seq::filter, 1);
    }
}

/// A line clear keeps the height of the grid.
pub proof fn lemma_cleared_len(rows: Rows)
    ensures
        cleared(rows).len() == rows.len(),
{
    rows.lemma_filter_len(|r: Seq<Cell>| !row_full(r));
}

/// A line clear moves every row that is not full down by the number of full rows
/// that were below it, and leaves it as it was.
pub proof fn lemma_clear_moves_rows_down(rows: Rows, y: int)
    requires
        0 <= y < rows.len(),
        !row_full(rows[y]),
    ensures
        0 <= y - full_rows_below(rows, y) < rows.len(),
        cleared(rows)[y - full_rows_below(rows, y)] == rows[y],
{
    let pred = |r: Seq<Cell>| !row_full(r);
    lemma_kept_prefix(rows, y);
    lemma_kept_prefix(rows, y + 1);
    assert(rows.take(y + 1).drop_last() =~= rows.take(y));
    assert(rows.take(y + 1).last() == rows[y]);
    assert(kept_rows(rows.take(y + 1)) == kept_rows(rows.take(y)).push(rows[y])) by {
        reveal_with_fuel(Seq::filter, 2);
    }
    let k = kept_rows(rows.take(y)).len() as int;
    assert(kept_rows(rows.take(y + 1))[k] == rows[y]);
    assert(kept_rows(rows)[k] == kept_rows(rows).take(k + 1)[k]);
    rows.lemma_filter_len(pred);
}

/// After a line clear the top of the grid holds one empty row for each full row
/// that the grid had.
pub proof fn lemma_clear_adds_empty_rows(rows: Rows, y: int)
    requires
        rows.len() - full_rows_below(rows, rows.len() as int) <= y < rows.len(),
    ensures
        cleared(rows)[y] == empty_row(),
{
    lemma_kept_prefix(rows, rows.len() as int);
    assert(rows.take(rows.len() as int) =~= rows);
}

/// Every row of a cleared grid is an empty row or a row of the grid before.
pub proof fn lemma_cleared_rows_are_old(rows: Rows, y: int)
    requires
        0 <= y < rows.len(),
    ensures
        cleared(rows)[y] == empty_row() || rows.contains(cleared(rows)[y]),
{
    let pred = |r: Seq<Cell>| !row_full(r);
    let kept = kept_rows(rows);
    rows.lemma_filter_len(pred);
    if y < kept.len() {
        assert(kept.contains(kept[y]));
        rows.lemma_filter_contains_rev(pred, kept[y]);
    }
}

/// A line clear keeps the dimensions of the grid and leaves it settled if it was.
pub proof fn lemma_cleared_keeps_shape(rows: Rows)
    requires
        grid_shaped(rows),
    ensures
        grid_shaped(cleared(rows)),
        settled(rows) ==> settled(cleared(rows)),
{
    lemma_cleared_len(rows);
    assert forall|y: int| 0 <= y < cleared(rows).len() implies (#[trigger] cleared(rows)[y]).len()
        == GRID_WIDTH && (settled(rows) ==> forall|x: int|
        0 <= x < GRID_WIDTH ==> (#[trigger] cleared(rows)[y][x] is Mino) || cleared(
            rows,
        )[y][x] is Empty) by {
        lemma_cleared_rows_are_old(rows, y);
        let row = cleared(rows)[y];
        if row != empty_row() {
            let i = choose|i: int| 0 <= i < rows.len() && rows[i] == row;
            assert(rows[i].len() == GRID_WIDTH);
            if settled(rows) {
                assert forall|x: int| 0 <= x < GRID_WIDTH implies (#[trigger] row[x] is Mino)
                    || row[x] is Empty by {
                    assert(rows[i][x] is Mino || rows[i][x] is Empty);
                }
            }
        }
    }
}

#[derive(Debug, Clone, Copy)]
pub struct Board {
    pub grid: [[Cell; 10]; 24],
}

impl View for Board {
    type V = Rows;

    open spec fn view(&self) -> Rows {
        Seq::new(GRID_HEIGHT as nat, |y: int| self.grid@[y]@)
    }
}

impl Board {
    /// The cell at column `x` of row `y`.
    pub open spec fn at(self, x: int, y: int) -> Cell
        recommends
            in_bounds(x, y),
    {
        self@[y][x]
    }

    /// True iff `(x, y)` is a square of the grid with nothing in it. Squares outside
    /// the grid count as occupied.
    pub open spec fn free(self, x: int, y: int) -> bool {
        in_bounds(x, y) && self.at(x, y) is Empty
    }

    /// True iff the grid holds only locked blocks and empty squares.
    pub open spec fn at_rest(self) -> bool {
        settled(self@)
    }

    /// The view of a board always has the dimensions of the grid.
    pub proof fn lemma_grid_shaped(self)
        ensures
            grid_shaped(self@),
    {
    }

    pub fn new() -> (board: Board)
        ensures
            forall|x: int, y: int| in_bounds(x, y) ==> #[trigger] board.free(x, y),
            board.at_rest(),
    {
        Board { grid: [[Cell::Empty; 10]; 24] }
    }

    pub fn is_in_bounds(&self, x: i8, y: i8) -> (inside: bool)
        ensures
            inside == in_bounds(x as int, y as int),
    {
        x < GRID_WIDTH as i8 && y < GRID_HEIGHT as i8 && x >= 0 && y >= 0
    }

    pub fn is_empty(&self, x: i8, y: i8) -> (empty: bool)
        ensures
            empty == self.free(x as int, y as int),
    {
        if self.is_in_bounds(x, y) {
            self.grid[y as usize][x as usize].is_empty()
        } else {
            false
        }
    }

    /// Whether the grid holds only locked blocks and empty squares.
    pub fn is_at_rest(&self) -> (rest: bool)
        ensures
            rest == self.at_rest(),
    {
        let mut y: usize = 0;
        while y < 24
            invariant
                y <= 24,
                forall|c: int, r: int|
                    0 <= r < y && 0 <= c < 10 ==> (#[trigger] self@[r][c] is Mino)
                        || self@[r][c] is Empty,
            decreases 24 - y,
        {
            let mut x: usize = 0;
            while x < 10
                invariant
                    x <= 10,
                    y < 24,
                    forall|c: int, r: int|
                        0 <= r < y && 0 <= c < 10 ==> (#[trigger] self@[r][c] is Mino)
                            || self@[r][c] is Empty,
                    forall|c: int|
                        0 <= c < x ==> (#[trigger] self@[y as int][c] is Mino)
                            || self@[y as int][c] is Empty,
                decreases 10 - x,
            {
                match self.grid[y][x] {
                    Cell::Mino(_) | Cell::Empty => {},
                    _ => {
                        assert(!(self@[y as int][x as int] is Mino) && !(self@[y as int][x as int]
                            is Empty));
                        return false;
                    },
                }
                x += 1;
            }
            y += 1;
        }
        true
    }

    /// True iff every square of row `row` is occupied.
    pub fn row_is_full(&self, row: usize) -> (full: bool)
        requires
            row < GRID_HEIGHT,
        ensures
            full == row_full(self@[row as int]),
    {
        let mut x: usize = 0;
        while x < 10
            invariant
                x <= 10,
                row < GRID_HEIGHT,
                forall|c: int| 0 <= c < x ==> !(#[trigger] self@[row as int][c] is Empty),
            decreases 10 - x,
        {
            if self.grid[row][x].is_empty() {
                assert(self@[row as int][x as int] is Empty);
                return false;
            }
            x += 1;
        }
        true
    }

    /// Takes row `row` out of the grid: every row above it moves down by one and an
    /// empty row comes in at the top.
    pub fn remove_row(&mut self, row: usize)
        requires
            row < GRID_HEIGHT,
        ensures
            final(self)@ == old(self)@.remove(row as int).push(empty_row()),
    {
        let mut r: usize = row;
        while r < 23
            invariant
                row <= r <= 23,
                forall|y: int|
                    0 <= y < 24 ==> #[trigger] self@[y] == if row <= y < r {
                        old(self)@[y + 1]
                    } else {
                        old(self)@[y]
                    },
            decreases 23 - r,
        {
            let ghost prev = *self;
            self.grid[r] = self.grid[r + 1];
            assert forall|y: int| 0 <= y < 24 implies #[trigger] self@[y] == if row <= y < r + 1 {
                old(self)@[y + 1]
            } else {
                old(self)@[y]
            } by {
                if y == r {
                    assert(self@[y] == prev@[y + 1]);
                } else {
                    assert(self@[y] == prev@[y]);
                }
            }
            r += 1;
        }
        let ghost prev = *self;
        self.grid[23] = [Cell::Empty; 10];
        assert(self@[23] =~= empty_row());
        assert forall|y: int| 0 <= y < 24 implies #[trigger] self@[y] == old(self)@.remove(
            row as int,
        ).push(empty_row())[y] by {
            if y < 23 {
                assert(self@[y] == prev@[y]);
            }
        }
        assert(self@ =~= old(self)@.remove(row as int).push(empty_row()));
    }

    /// Removes every full row. The rows that stay keep their order and sink onto each
    /// other; empty rows fill the top.
    pub fn clear_lines(&mut self)
        ensures
            final(self)@ == cleared(old(self)@),
    {
        let mut y: usize = 24;
        assert(old(self)@.subrange(24, 24) =~= Seq::<Seq<Cell>>::empty());
        assert(cleared(Seq::<Seq<Cell>>::empty()) =~= Seq::<Seq<Cell>>::empty()) by {
            reveal_with_fuel(Seq::filter, 1);
        }
        assert(self@ =~= old(self)@.subrange(0, 24) + cleared(old(self)@.subrange(24, 24)));
        while y > 0
            invariant
                y <= 24,
                self@ == old(self)@.subrange(0, y as int) + cleared(
                    old(self)@.subrange(y as int, 24),
                ),
            decreases y,
        {
            let ghost tail = old(self)@.subrange(y as int, 24);
            let ghost before = self@;
            y -= 1;
            proof {
                lemma_cleared_prepend(old(self)@[y as int], tail);
                lemma_cleared_len(tail);
                assert(old(self)@.subrange(y as int, 24) =~= seq![old(self)@[y as int]] + tail);
                assert(before[y as int] == old(self)@[y as int]);
            }
            if self.row_is_full(y) {
                self.remove_row(y);
                assert(self@ =~= old(self)@.subrange(0, y as int) + cleared(
                    old(self)@.subrange(y as int, 24),
                ));
            } else {
                assert(self@ =~= old(self)@.subrange(0, y as int) + cleared(
                    old(self)@.subrange(y as int, 24),
                ));
            }
        }
        assert(old(self)@.subrange(0, 24) =~= old(self)@);
        assert(old(self)@.subrange(0, 0) =~= Seq::<Seq<Cell>>::empty());
        assert(self@ =~= cleared(old(self)@));
    }
}

} // verus!
