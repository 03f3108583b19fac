//! The active piece: where its cells lie, and how it moves and turns on a board.

use vstd::prelude::*;
use crate::board::{in_bounds, Board};
use crate::shape::{kick, turned, Direction, MinoType, Pos, KICKS, TETRIMINO};

verus! {

/// Column of the anchor of a freshly spawned piece.
pub const SPAWN_X: i8 = 4;

/// Row of the anchor of a freshly spawned piece.
pub const SPAWN_Y: i8 = 18;

/// The `i`-th cell of a piece of the given shape and rotation state whose anchor is
/// at `(x, y)`: the footprint offset, turned, then moved to the anchor.
pub open spec fn pose_cell(shape: MinoType, d: Direction, x: int, y: int, i: int) -> (int, int) {
    let p = shape.footprint()[i];
    let o = turned(d, (p.0 as int, p.1 as int));
    (x + o.0, y + o.1)
}

/// True iff all four cells of the pose are empty squares of the board.
pub open spec fn pose_free(shape: MinoType, d: Direction, x: int, y: int, board: Board) -> bool {
    forall|i: int|
        0 <= i < TETRIMINO ==> {
            let c = #[trigger] pose_cell(shape, d, x, y, i);
            board.free(c.0, c.1)
        }
}

/// True iff `g` is the row on which a piece that starts at `(x, y)` comes to rest when
/// it falls straight down: no row from `g` up to just below `y` blocks it, and the row
/// under `g` does.
pub open spec fn landing_row(
    shape: MinoType,
    d: Direction,
    x: int,
    y: int,
    g: int,
    board: Board,
) -> bool {
    &&& g <= y
    &&& !pose_free(shape, d, x, g - 1, board)
    &&& forall|r: int| g <= r < y ==> #[trigger] pose_free(shape, d, x, r, board)
}

/// True iff a piece sliding sideways from column `x` in steps of `step` (1 or -1)
/// stops at column `fx`: every column it passes through is free and the next is not.
pub open spec fn slide_stop(
    shape: MinoType,
    d: Direction,
    x: int,
    y: int,
    step: int,
    fx: int,
    board: Board,
) -> bool {
    &&& if step > 0 {
        x <= fx
    } else {
        fx <= x
    }
    &&& forall|c: int|
        (x < c <= fx || fx <= c < x) ==> #[trigger] pose_free(shape, d, c, y, board)
    &&& !pose_free(shape, d, fx + step, y, board)
}

/// Every shape has a cell on its pivot, so the anchor of a free pose is on the board.
pub proof fn lemma_free_pose_on_board(shape: MinoType, d: Direction, x: int, y: int, board: Board)
    requires
        pose_free(shape, d, x, y, board),
    ensures
        in_bounds(x, y),
        forall|i: int|
            0 <= i < TETRIMINO ==> in_bounds(
                (#[trigger] pose_cell(shape, d, x, y, i)).0,
                pose_cell(shape, d, x, y, i).1,
            ),
{
    let i: int = match shape {
        MinoType::J | MinoType::Z => 2,
        _ => 1,
    };
    assert(pose_cell(shape, d, x, y, i) == (x, y));
}

/// At most one row is the landing row of a pose.
pub proof fn lemma_landing_row_unique(
    shape: MinoType,
    d: Direction,
    x: int,
    y: int,
    g1: int,
    g2: int,
    board: Board,
)
    requires
        landing_row(shape, d, x, y, g1, board),
        landing_row(shape, d, x, y, g2, board),
    ensures
        g1 == g2,
{
    if g1 < g2 {
        assert(pose_free(shape, d, x, g2 - 1, board));
    }
    if g2 < g1 {
        assert(pose_free(shape, d, x, g1 - 1, board));
    }
}

/// A piece that does not collide has a free pose at its landing row and a blocked
/// one just below it.
pub proof fn lemma_landing_row_is_free(
    shape: MinoType,
    d: Direction,
    x: int,
    y: int,
    g: int,
    board: Board,
)
    requires
        pose_free(shape, d, x, y, board),
        landing_row(shape, d, x, y, g, board),
    ensures
        pose_free(shape, d, x, g, board),
        !pose_free(shape, d, x, g - 1, board),
{
}

/// The board coordinates of the `i`-th cell of a pose.
fn cell_at(shape: MinoType, d: Direction, x: i16, y: i16, i: usize) -> (c: (i32, i32))
    requires
        i < TETRIMINO,
    ensures
        (c.0 as int, c.1 as int) == pose_cell(shape, d, x as int, y as int, i as int),
{
    let p = shape.get_cells()[i];
    let (ox, oy): (i32, i32) = match d {
        Direction::Z => (p.0 as i32, p.1 as i32),
        Direction::R => (p.1 as i32, -(p.0 as i32)),
        Direction::D => (-(p.0 as i32), -(p.1 as i32)),
        Direction::L => (-(p.1 as i32), p.0 as i32),
    };
    (x as i32 + ox, y as i32 + oy)
}

#[derive(Debug, Clone, Copy, PartialEq, Eq, Structural)]
pub struct Mino {
    pub mino_type: MinoType,
    pub direction: Direction,
    pub ghost_y: i8,
    pub x: i8,
    pub y: i8,
}

impl Mino {
    /// The `i`-th cell of the piece, as board coordinates.
    pub open spec fn cell(self, i: int) -> (int, int) {
        pose_cell(self.mino_type, self.direction, self.x as int, self.y as int, i)
    }

    /// True iff every cell coordinate of the piece can be held in an `i8`.
    pub open spec fn fits(self) -> bool {
        forall|i: int|
            0 <= i < TETRIMINO ==> {
                let c = #[trigger] self.cell(i);
                i8::MIN <= c.0 <= i8::MAX && i8::MIN <= c.1 <= i8::MAX
            }
    }

    /// True iff every cell of the piece is a square of the grid.
    pub open spec fn on_board(self) -> bool {
        forall|i: int|
            0 <= i < TETRIMINO ==> {
                let c = #[trigger] self.cell(i);
                in_bounds(c.0, c.1)
            }
    }

    /// True iff the piece overlaps a block or sticks out of the board.
    pub open spec fn blocked(self, board: Board) -> bool {
        !pose_free(self.mino_type, self.direction, self.x as int, self.y as int, board)
    }

    /// True iff the cached ghost row is the landing row of the piece on `board`.
    pub open spec fn rests(self, board: Board) -> bool {
        landing_row(
            self.mino_type,
            self.direction,
            self.x as int,
            self.y as int,
            self.ghost_y as int,
            board,
        )
    }

    /// True iff `self` is the piece with the given shape, state and anchor whose ghost
    /// row is up to date on `board`.
    pub open spec fn placed(self, shape: MinoType, d: Direction, x: int, y: int, board: Board) -> bool {
        &&& self.mino_type == shape
        &&& self.direction == d
        &&& self.x == x
        &&& self.y == y
        &&& self.rests(board)
    }

    /// True iff `self` is a fresh piece of the given shape at the spawn pose on `board`.
    pub open spec fn spawned(self, shape: MinoType, board: Board) -> bool {
        self.placed(shape, Direction::Z, SPAWN_X as int, SPAWN_Y as int, board)
    }

    /// True iff the `i`-th rotation candidate towards state `to` is free.
    pub open spec fn kick_free(self, to: Direction, i: int, board: Board) -> bool {
        let k = kick(self.mino_type, self.direction, to, i);
        pose_free(self.mino_type, to, self.x + k.0, self.y + k.1, board)
    }

    /// The candidate that a rotation towards state `to` commits: the free one with
    /// the lowest index, if any of the five is free.
    pub open spec fn chosen_kick(self, to: Direction, board: Board) -> Option<int> {
        if self.kick_free(to, 0, board) {
            Some(0)
        } else if self.kick_free(to, 1, board) {
            Some(1)
        } else if self.kick_free(to, 2, board) {
            Some(2)
        } else if self.kick_free(to, 3, board) {
            Some(3)
        } else if self.kick_free(to, 4, board) {
            Some(4)
        } else {
            None
        }
    }

    /// Would the piece be blocked if its anchor were at `(x, y)` in state `d`?
    fn blocked_at(&self, d: Direction, x: i16, y: i16, board: &Board) -> (hit: bool)
        ensures
            hit == !pose_free(self.mino_type, d, x as int, y as int, *board),
    {
        let mut i: usize = 0;
        while i < TETRIMINO
            invariant
                i <= TETRIMINO,
                forall|j: int|
                    0 <= j < i ==> {
                        let c = #[trigger] pose_cell(self.mino_type, d, x as int, y as int, j);
                        board.free(c.0, c.1)
                    },
            decreases TETRIMINO - i,
        {
            let (cx, cy) = cell_at(self.mino_type, d, x, y, i);
            if cx < 0 || cx >= 10 || cy < 0 || cy >= 24 {
                return true;
            }
            if !board.grid[cy as usize][cx as usize].is_empty() {
                return true;
            }
            i += 1;
        }
        false
    }

    /// Finds the landing row of a piece of this shape in state `d` anchored at `(x, y)`.
    fn drop_row(&self, d: Direction, x: i16, y: i8, board: &Board) -> (g: i8)
        ensures
            landing_row(self.mino_type, d, x as int, y as int, g as int, *board),
    {
        let mut gy: i16 = y as i16 - 1;
        while !self.blocked_at(d, x, gy, board)
            invariant
                gy < y,
                gy >= -2 || gy == y - 1,
                forall|r: int|
                    gy < r < y ==> #[trigger] pose_free(self.mino_type, d, x as int, r, *board),
            decreases gy + 200,
        {
            proof {
                lemma_free_pose_on_board(self.mino_type, d, x as int, gy as int, *board);
            }
            gy -= 1;
        }
        (gy + 1) as i8
    }

    pub fn new(mino_type: MinoType, board: &Board) -> (mino: Mino)
        ensures
            mino.spawned(mino_type, *board),
    {
        let mut mino = Mino { mino_type, direction: Direction::Z, ghost_y: SPAWN_Y, x: SPAWN_X, y: SPAWN_Y };
        mino.update_ghost_y(board);
        mino
    }

    /// The board coordinates of the four cells.
    pub fn get_cells(&self) -> (cells: [Pos; TETRIMINO])
        requires
            self.fits(),
        ensures
            forall|i: int|
                0 <= i < TETRIMINO ==> (cells[i].0 as int, cells[i].1 as int) == #[trigger] self.cell(
                    i,
                ),
    {
        let mut cells: [Pos; TETRIMINO] = [(0, 0); TETRIMINO];
        let mut i: usize = 0;
        while i < TETRIMINO
            invariant
                i <= TETRIMINO,
                self.fits(),
                forall|j: int|
                    0 <= j < i ==> (cells[j].0 as int, cells[j].1 as int) == #[trigger] self.cell(j),
            decreases TETRIMINO - i,
        {
            let (cx, cy) = cell_at(self.mino_type, self.direction, self.x as i16, self.y as i16, i);
            assert((cx as int, cy as int) == self.cell(i as int));
            cells[i] = (cx as i8, cy as i8);
            i += 1;
        }
        cells
    }

    pub fn collides(&self, board: &Board) -> (hit: bool)
        ensures
            hit == self.blocked(*board),
    {
        self.blocked_at(self.direction, self.x as i16, self.y as i16, board)
    }

    /// Moves the piece by `(x, y)` if the new pose is free. Returns whether it moved;
    /// a piece that did not move is unchanged.
    pub fn shift(&mut self, x: i8, y: i8, board: &Board) -> (moved: bool)
        ensures
            moved == pose_free(
                old(self).mino_type,
                old(self).direction,
                old(self).x + x,
                old(self).y + y,
                *board,
            ),
            moved ==> final(self).placed(
                old(self).mino_type,
                old(self).direction,
                old(self).x + x,
                old(self).y + y,
                *board,
            ),
            moved ==> pose_free(
                final(self).mino_type,
                final(self).direction,
                final(self).x as int,
                final(self).ghost_y as int,
                *board,
            ),
            moved ==> !pose_free(
                final(self).mino_type,
                final(self).direction,
                final(self).x as int,
                final(self).ghost_y - 1,
                *board,
            ),
            !moved ==> *final(self) == *old(self),
    {
        let nx: i16 = self.x as i16 + x as i16;
        let ny: i16 = self.y as i16 + y as i16;
        if self.blocked_at(self.direction, nx, ny, board) {
            return false;
        }
        proof {
            lemma_free_pose_on_board(self.mino_type, self.direction, nx as int, ny as int, *board);
        }
        self.x = nx as i8;
        self.y = ny as i8;
        self.update_ghost_y(board);
        true
    }

    /// Slides the piece sideways as far as it goes: right for `Direction::R`, left for
    /// `Direction::L`. Returns whether it moved.
    pub fn das_shift(&mut self, direction: Direction, board: &Board) -> (moved: bool)
        requires
            direction is R || direction is L,
        ensures
            slide_stop(
                old(self).mino_type,
                old(self).direction,
                old(self).x as int,
                old(self).y as int,
                if direction is R {
                    1
                } else {
                    -1
                },
                final(self).x as int,
                *board,
            ),
            moved == (final(self).x != old(self).x),
            moved ==> final(self).placed(
                old(self).mino_type,
                old(self).direction,
                final(self).x as int,
                old(self).y as int,
                *board,
            ),
            !moved ==> *final(self) == *old(self),
    {
        let step: i16 = match direction {
            Direction::R => 1,
            _ => -1,
        };
        let start: i16 = self.x as i16;
        let mut cx: i16 = start + step;
        while !self.blocked_at(self.direction, cx, self.y as i16, board)
            invariant
                step == 1 || step == -1,
                start == self.x,
                *self == *old(self),
                if step == 1 {
                    start < cx && (cx <= 10 || cx == start + 1)
                } else {
                    cx < start && (cx >= -1 || cx == start - 1)
                },
                forall|c: int|
                    (start < c < cx || cx < c < start) ==> #[trigger] pose_free(
                        self.mino_type,
                        self.direction,
                        c,
                        self.y as int,
                        *board,
                    ),
            decreases
                    if step == 1 {
                        200 - cx
                    } else {
                        cx + 200
                    },
        {
            proof {
                lemma_free_pose_on_board(
                    self.mino_type,
                    self.direction,
                    cx as int,
                    self.y as int,
                    *board,
                );
            }
            cx += step;
        }
        let stop: i16 = cx - step;
        if stop == start {
            return false;
        }
        proof {
            lemma_free_pose_on_board(
                self.mino_type,
                self.direction,
                stop as int,
                self.y as int,
                *board,
            );
        }
        self.x = stop as i8;
        self.update_ghost_y(board);
        true
    }

    /// Recomputes the cached ghost row for the current pose.
    pub fn update_ghost_y(&mut self, board: &Board)
        ensures
            final(self).placed(
                old(self).mino_type,
                old(self).direction,
                old(self).x as int,
                old(self).y as int,
                *board,
            ),
    {
        self.ghost_y = self.drop_row(self.direction, self.x as i16, self.y, board);
    }

    /// The piece moved down to its ghost row.
    pub fn get_ghost(&self) -> (landed: Mino)
        ensures
            landed == (Mino { y: self.ghost_y, ..*self }),
    {
        Mino { y: self.ghost_y, ..*self }
    }

    /// Turns the piece by `direction`, trying the five candidate translations of its
    /// offset table in order and committing the first free one. Returns whether it
    /// turned; a piece that did not turn is unchanged.
    pub fn rotate(&mut self, direction: Direction, board: &Board) -> (turned: bool)
        ensures
            turned == old(self).chosen_kick(old(self).direction.plus(direction), *board).is_some(),
            turned ==> {
                let to = old(self).direction.plus(direction);
                let k = kick(
                    old(self).mino_type,
                    old(self).direction,
                    to,
                    old(self).chosen_kick(to, *board).unwrap(),
                );
                final(self).placed(old(self).mino_type, to, old(self).x + k.0, old(self).y + k.1, *board)
            },
            !turned ==> *final(self) == *old(self),
    {
        let to = self.direction + direction;
        let table = self.mino_type.offset_table();
        let pre = table[self.direction.index()];
        let post = table[to.index()];
        let mut i: usize = 0;
        while i < KICKS
            invariant
                i <= KICKS,
                *self == *old(self),
                to == self.direction.plus(direction),
                pre == self.mino_type.offsets()[self.direction.turns()],
                post == self.mino_type.offsets()[to.turns()],
                forall|j: int| 0 <= j < i ==> !#[trigger] self.kick_free(to, j, *board),
            decreases KICKS - i,
        {
            let tx: i16 = self.x as i16 + (pre[i].0 as i16 - post[i].0 as i16);
            let ty: i16 = self.y as i16 + (pre[i].1 as i16 - post[i].1 as i16);
            assert(self.kick_free(to, i as int, *board) == pose_free(
                self.mino_type,
                to,
                tx as int,
                ty as int,
                *board,
            ));
            if !self.blocked_at(to, tx, ty, board) {
                proof {
                    lemma_free_pose_on_board(self.mino_type, to, tx as int, ty as int, *board);
                    assert(self.chosen_kick(to, *board) == Some(i as int));
                }
                self.direction = to;
                self.x = tx as i8;
                self.y = ty as i8;
                self.update_ghost_y(board);
                return true;
            }
            i += 1;
        }
        assert(self.chosen_kick(to, *board).is_none());
        false
    }

    /// Whether every cell of the piece is a square of the grid: on an empty board a
    /// pose is free exactly when it lies on the board.
    pub fn is_on_board(&self) -> (inside: bool)
        ensures
            inside == self.on_board(),
    {
        let empty = Board::new();
        let hit = self.blocked_at(self.direction, self.x as i16, self.y as i16, &empty);
        proof {
            if hit {
                let i = choose|i: int|
                    0 <= i < TETRIMINO && !({
                        let c = #[trigger] pose_cell(
                            self.mino_type,
                            self.direction,
                            self.x as int,
                            self.y as int,
                            i,
                        );
                        empty.free(c.0, c.1)
                    });
                let c = self.cell(i);
                if in_bounds(c.0, c.1) {
                    assert(empty.free(c.0, c.1));
                }
                assert(!in_bounds(c.0, c.1));
            } else {
                assert forall|i: int| 0 <= i < TETRIMINO implies {
                    let c = #[trigger] self.cell(i);
                    in_bounds(c.0, c.1)
                } by {
                    let c = pose_cell(
                        self.mino_type,
                        self.direction,
                        self.x as int,
                        self.y as int,
                        i,
                    );
                    assert(empty.free(c.0, c.1));
                }
            }
        }
        !hit
    }

    /// Whether the cached ghost row is the landing row of the piece on `board`.
    pub fn is_resting(&self, board: &Board) -> (current: bool)
        ensures
            current == self.rests(*board),
    {
        let g = self.drop_row(self.direction, self.x as i16, self.y, board);
        proof {
            if self.rests(*board) {
                lemma_landing_row_unique(
                    self.mino_type,
                    self.direction,
                    self.x as int,
                    self.y as int,
                    g as int,
                    self.ghost_y as int,
                    *board,
                );
            }
        }
        g == self.ghost_y
    }

    pub fn is_bottom(&self) -> (grounded: bool)
        ensures
            grounded == (self.y == self.ghost_y),
    {
        self.y == self.ghost_y
    }
}

/// The order of the kicks decides: whenever a candidate is free and every candidate
/// before it is blocked, it is the one a rotation commits, whatever holds of the
/// candidates after it. If none of the five is free, none is committed.
pub proof fn lemma_lowest_free_kick_wins(piece: Mino, to: Direction, board: Board, k: int)
    requires
        0 <= k < KICKS,
        piece.kick_free(to, k, board),
        forall|j: int| 0 <= j < k ==> !piece.kick_free(to, j, board),
    ensures
        piece.chosen_kick(to, board) == Some(k),
{
}

/// A rotation commits no candidate exactly when all five are blocked, and the one it
/// commits is free.
pub proof fn lemma_chosen_kick_is_free(piece: Mino, to: Direction, board: Board)
    ensures
        piece.chosen_kick(to, board) is None <==> forall|j: int|
            0 <= j < KICKS ==> !piece.kick_free(to, j, board),
        piece.chosen_kick(to, board) matches Some(k) ==> 0 <= k < KICKS && piece.kick_free(
            to,
            k,
            board,
        ),
{
    if piece.chosen_kick(to, board) is None {
        assert forall|j: int| 0 <= j < KICKS implies !piece.kick_free(to, j, board) by {
            if j == 0 {
            } else if j == 1 {
            } else if j == 2 {
            } else if j == 3 {
            } else {
                assert(j == 4);
            }
        }
    }
}

} // verus!
