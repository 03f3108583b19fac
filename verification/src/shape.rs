//! Shapes, orientations and the fixed tables that drive rotation.

use vstd::prelude::*;
use vstd::std_specs::ops::AddSpecImpl;

verus! {

/// A coordinate pair, column first. Row 0 is the bottom of the board.
pub type Pos = (i8, i8);

/// Number of cells in every piece.
pub const TETRIMINO: usize = 4;

/// Number of candidate translations tried by one rotation.
pub const KICKS: usize = 5;

pub const I_CELLS: [Pos; 4] = [(-1, 0), (0, 0), (1, 0), (2, 0)];

pub const J_CELLS: [Pos; 4] = [(-1, 1), (-1, 0), (0, 0), (1, 0)];

pub const L_CELLS: [Pos; 4] = [(-1, 0), (0, 0), (1, 0), (1, 1)];

pub const O_CELLS: [Pos; 4] = [(0, 1), (0, 0), (1, 0), (1, 1)];

pub const S_CELLS: [Pos; 4] = [(-1, 0), (0, 0), (0, 1), (1, 1)];

pub const T_CELLS: [Pos; 4] = [(-1, 0), (0, 0), (0, 1), (1, 0)];

pub const Z_CELLS: [Pos; 4] = [(-1, 1), (0, 1), (0, 0), (1, 0)];

pub const JLSTZ_OFFSETS: [[Pos; 5]; 4] = [
    [(0, 0), (0, 0), (0, 0), (0, 0), (0, 0)],
    [(0, 0), (1, 0), (1, -1), (0, 2), (1, 2)],
    [(0, 0), (0, 0), (0, 0), (0, 0), (0, 0)],
    [(0, 0), (-1, 0), (-1, -1), (0, 2), (-1, 2)],
];

pub const I_OFFSETS: [[Pos; 5]; 4] = [
    [(0, 0), (-1, 0), (2, 0), (-1, 0), (2, 0)],
    [(-1, 0), (0, 0), (0, 0), (0, 1), (0, -2)],
    [(-1, 1), (1, 1), (-2, 1), (1, 0), (-2, 0)],
    [(0, 1), (0, 1), (0, 1), (0, -1), (0, 2)],
];

pub const O_OFFSETS: [[Pos; 5]; 4] = [
    [(0, 0), (0, 0), (0, 0), (0, 0), (0, 0)],
    [(0, -1), (0, 0), (0, 0), (0, 0), (0, 0)],
    [(-1, -1), (0, 0), (0, 0), (0, 0), (0, 0)],
    [(-1, 0), (0, 0), (0, 0), (0, 0), (0, 0)],
];

/// A rotation state, or a rotation request when it is added to one.
#[derive(Debug, Clone, Copy, PartialEq, Eq, Structural)]
pub enum Direction {
    /// Zero: the spawn state.
    Z,
    /// Right: one clockwise quarter turn.
    R,
    /// Double: a half turn.
    D,
    /// Left: one counter-clockwise quarter turn.
    L,
}

impl Direction {
    /// Number of clockwise quarter turns away from the spawn state.
    pub open spec fn turns(self) -> int {
        match self {
            Direction::Z => 0,
            Direction::R => 1,
            Direction::D => 2,
            Direction::L => 3,
        }
    }

    /// The state reached after `n` clockwise quarter turns, for `n` in `0..4`.
    pub open spec fn of_turns(n: int) -> Direction {
        if n == 0 {
            Direction::Z
        } else if n == 1 {
            Direction::R
        } else if n == 2 {
            Direction::D
        } else {
            Direction::L
        }
    }

    /// Composition of two rotations: quarter turns add up modulo four.
    pub open spec fn plus(self, rhs: Direction) -> Direction {
        Direction::of_turns((self.turns() + rhs.turns()) % 4)
    }

    /// The row of an offset table that belongs to this state.
    pub fn index(self) -> (n: usize)
        ensures
            n == self.turns(),
    {
        match self {
            Direction::Z => 0,
            Direction::R => 1,
            Direction::D => 2,
            Direction::L => 3,
        }
    }
}

impl core::ops::Add<Direction> for Direction {
    type Output = Direction;

    fn add(self, rhs: Direction) -> (sum: Direction) {
        let n: usize = self.index() + rhs.index();
        match n % 4 {
            0 => Direction::Z,
            1 => Direction::R,
            2 => Direction::D,
            _ => Direction::L,
        }
    }
}

impl AddSpecImpl<Direction> for Direction {
    open spec fn obeys_add_spec() -> bool {
        true
    }

    open spec fn add_req(self, rhs: Direction) -> bool {
        true
    }

    open spec fn add_spec(self, rhs: Direction) -> Direction {
        self.plus(rhs)
    }
}

/// One of the seven piece shapes.
#[derive(Debug, Clone, Copy, PartialEq, Eq, Structural)]
pub enum MinoType {
    I,
    J,
    L,
    O,
    S,
    T,
    Z,
}

impl MinoType {
    /// The four cells of the shape in its spawn orientation, relative to the pivot.
    pub open spec fn footprint(self) -> Seq<Pos> {
        match self {
            MinoType::I => I_CELLS@,
            MinoType::J => J_CELLS@,
            MinoType::L => L_CELLS@,
            MinoType::O => O_CELLS@,
            MinoType::S => S_CELLS@,
            MinoType::T => T_CELLS@,
            MinoType::Z => Z_CELLS@,
        }
    }

    /// The offset table of the shape: one row of five vectors per rotation state.
    pub open spec fn offsets(self) -> Seq<[Pos; 5]> {
        match self {
            MinoType::I => I_OFFSETS@,
            MinoType::O => O_OFFSETS@,
            _ => JLSTZ_OFFSETS@,
        }
    }

    /// Position of the shape in the list I, J, L, O, S, T, Z.
    pub open spec fn ordinal(self) -> int {
        match self {
            MinoType::I => 0,
            MinoType::J => 1,
            MinoType::L => 2,
            MinoType::O => 3,
            MinoType::S => 4,
            MinoType::T => 5,
            MinoType::Z => 6,
        }
    }

    /// Position of the shape in the list I, J, L, O, S, T, Z.
    pub fn index(&self) -> (n: usize)
        ensures
            n == self.ordinal(),
    {
        match self {
            MinoType::I => 0,
            MinoType::J => 1,
            MinoType::L => 2,
            MinoType::O => 3,
            MinoType::S => 4,
            MinoType::T => 5,
            MinoType::Z => 6,
        }
    }

    pub fn get_cells(&self) -> (cells: &[Pos; TETRIMINO])
        ensures
            cells@ == self.footprint(),
    {
        match self {
            MinoType::I => &I_CELLS,
            MinoType::J => &J_CELLS,
            MinoType::L => &L_CELLS,
            MinoType::O => &O_CELLS,
            MinoType::S => &S_CELLS,
            MinoType::T => &T_CELLS,
            MinoType::Z => &Z_CELLS,
        }
    }

    /// The offset table used when this shape rotates: `I` and `O` have their own, the
    /// other five share one.
    pub fn offset_table(&self) -> (table: [[Pos; KICKS]; 4])
        ensures
            table@ == self.offsets(),
    {
        match self {
            MinoType::I => I_OFFSETS,
            MinoType::O => O_OFFSETS,
            _ => JLSTZ_OFFSETS,
        }
    }
}

/// A cell offset turned into the given rotation state: each quarter turn maps
/// `(x, y)` to `(y, -x)`.
pub open spec fn turned(d: Direction, p: (int, int)) -> (int, int) {
    match d {
        Direction::Z => (p.0, p.1),
        Direction::R => (p.1, -p.0),
        Direction::D => (-p.0, -p.1),
        Direction::L => (-p.1, p.0),
    }
}

/// The `i`-th translation tried when `shape` turns from state `from` to state `to`:
/// the vector of the old state minus the vector of the new one.
pub open spec fn kick(shape: MinoType, from: Direction, to: Direction, i: int) -> (int, int) {
    let pre = shape.offsets()[from.turns()]@[i];
    let post = shape.offsets()[to.turns()]@[i];
    (pre.0 - post.0, pre.1 - post.1)
}

} // verus!
