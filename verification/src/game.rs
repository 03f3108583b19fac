//! The game state: board, active piece, hold slot, bag, and the bookkeeping of the
//! lock delay.

use vstd::prelude::*;
use crate::bag::{draw, full_bag, Bag};
use crate::board::{cleared, in_bounds, lemma_cleared_keeps_shape, settled, Board, Cell, Rows};
use crate::mino::{lemma_free_pose_on_board, pose_cell, pose_free, Mino, SPAWN_X, SPAWN_Y};
use crate::shape::{kick, Direction, MinoType, TETRIMINO};

verus! {

/// True iff one of the four cells of the pose lies on the square `(c, r)`.
pub open spec fn pose_covers(shape: MinoType, d: Direction, x: int, y: int, c: int, r: int) -> bool {
    exists|i: int| 0 <= i < TETRIMINO && #[trigger] pose_cell(shape, d, x, y, i) == (c, r)
}

/// The rows after every square under the pose has been set to `cell`.
pub open spec fn stamped(
    rows: Rows,
    shape: MinoType,
    d: Direction,
    x: int,
    y: int,
    cell: Cell,
) -> Rows {
    Seq::new(
        rows.len(),
        |r: int|
            Seq::new(
                rows[r].len(),
                |c: int|
                    if pose_covers(shape, d, x, y, c, r) {
                        cell
                    } else {
                        rows[r][c]
                    },
            ),
    )
}

/// The touch time after a move attempt. A piece that was not touching starts to touch
/// if it is grounded; a piece that was touching and moved touches anew if it is still
/// grounded and stops touching if it is not; a failed attempt leaves a touching piece
/// as it was.
pub open spec fn touch_after(touch: Option<u64>, success: bool, grounded: bool, now: u64) -> Option<
    u64,
> {
    if touch is None || success {
        if grounded {
            Some(now)
        } else {
            None
        }
    } else {
        touch
    }
}

/// The move-reset count after a move attempt. A piece that comes to touch the ground
/// starts at zero, and so does a piece that the move took down. A successful move of a
/// piece that was touching counts one up, without going past `u8::MAX`.
pub open spec fn resets_after(
    touch: Option<u64>,
    count: u8,
    success: bool,
    grounded: bool,
    move_down: bool,
) -> u8 {
    if move_down {
        0
    } else if touch is None {
        if grounded {
            0
        } else {
            count
        }
    } else if success && count < u8::MAX {
        (count + 1) as u8
    } else {
        count
    }
}

/// Every shape lies on the board at the spawn pose.
pub proof fn lemma_spawn_on_board(shape: MinoType)
    ensures
        forall|i: int|
            0 <= i < TETRIMINO ==> {
                let c = #[trigger] pose_cell(shape, Direction::Z, SPAWN_X as int, SPAWN_Y as int, i);
                3 <= c.0 <= 6 && 18 <= c.1 <= 19
            },
{
}

/// Sets the squares under `piece` to `cell`.
fn stamp(board: &mut Board, piece: &Mino, cell: Cell)
    requires
        piece.on_board(),
    ensures
        final(board)@ == stamped(
            old(board)@,
            piece.mino_type,
            piece.direction,
            piece.x as int,
            piece.y as int,
            cell,
        ),
{
    let cells = piece.get_cells();
    let mut i: usize = 0;
    while i < TETRIMINO
        invariant
            i <= TETRIMINO,
            piece.on_board(),
            forall|j: int|
                0 <= j < TETRIMINO ==> (cells[j].0 as int, cells[j].1 as int) == #[trigger] piece.cell(
                    j,
                ),
            forall|c: int, r: int|
                0 <= r < 24 && 0 <= c < 10 ==> #[trigger] board@[r][c] == if exists|j: int|
                    0 <= j < i && #[trigger] piece.cell(j) == (c, r) {
                    cell
                } else {
                    old(board)@[r][c]
                },
        decreases TETRIMINO - i,
    {
        let (cx, cy) = cells[i];
        let ghost prev = *board;
        assert(piece.cell(i as int) == (cx as int, cy as int));
        board.grid[cy as usize][cx as usize] = cell;
        assert forall|c: int, r: int| 0 <= r < 24 && 0 <= c < 10 implies #[trigger] board@[r][c]
            == if exists|j: int| 0 <= j < i + 1 && #[trigger] piece.cell(j) == (c, r) {
            cell
        } else {
            old(board)@[r][c]
        } by {
            if c == cx && r == cy {
            } else {
                assert(board@[r][c] == prev@[r][c]);
                if exists|j: int| 0 <= j < i + 1 && #[trigger] piece.cell(j) == (c, r) {
                    let j = choose|j: int| 0 <= j < i + 1 && #[trigger] piece.cell(j) == (c, r);
                    assert(j < i);
                }
            }
        }
        i += 1;
    }
    proof {
        let goal = stamped(
            old(board)@,
            piece.mino_type,
            piece.direction,
            piece.x as int,
            piece.y as int,
            cell,
        );
        assert forall|r: int| 0 <= r < 24 implies #[trigger] board@[r] =~= goal[r] by {
            assert forall|c: int| 0 <= c < 10 implies board@[r][c] == goal[r][c] by {
                let covered = pose_covers(
                    piece.mino_type,
                    piece.direction,
                    piece.x as int,
                    piece.y as int,
                    c,
                    r,
                );
                if covered {
                    let j = choose|j: int|
                        0 <= j < TETRIMINO && #[trigger] pose_cell(
                            piece.mino_type,
                            piece.direction,
                            piece.x as int,
                            piece.y as int,
                            j,
                        ) == (c, r);
                    assert(piece.cell(j) == (c, r));
                }
            }
        }
        assert(board@ =~= goal);
    }
}

pub struct Game {
    pub board: Board,
    pub player: Mino,
    pub hold: Option<MinoType>,
    pub bags: Bag,
    /// Whether the piece may still be swapped with the hold slot before the next lock.
    pub can_hold: bool,
    /// The time at which the piece last came to touch the ground, while it touches.
    pub last_touch: Option<u64>,
    /// Successful moves of the touching piece since it last moved down.
    pub canceled_drop: u8,
    /// The time at which the charge to the left began, while it is charging.
    pub das_charge_left: Option<u64>,
    /// The time at which the charge to the right began, while it is charging.
    pub das_charge_right: Option<u64>,
}

impl Game {
    /// The state is well formed when the piece lies on the board with its ghost row
    /// up to date, the bag holds no shape twice, and the grid holds nothing but locked
    /// blocks and empty squares.
    pub open spec fn wf(self) -> bool {
        &&& self.player.on_board()
        &&& self.player.rests(self.board)
        &&& self.bags.wf()
        &&& self.board.at_rest()
    }

    /// True iff `self` is a state at the start of a game: the board is empty, the first
    /// shape of a full bag stands at the spawn pose, nothing is held and no timer runs.
    pub open spec fn fresh(self) -> bool {
        &&& forall|x: int, y: int| in_bounds(x, y) ==> #[trigger] self.board.free(x, y)
        &&& self.player.spawned(self.player.mino_type, self.board)
        &&& full_bag(self.bags@.push(self.player.mino_type))
        &&& self.hold is None
        &&& self.can_hold
        &&& self.last_touch is None
        &&& self.canceled_drop == 0
        &&& self.das_charge_left is None
        &&& self.das_charge_right is None
    }

    /// True iff `post` differs from `self` at most in the piece and in the bookkeeping
    /// of the lock delay, and the latter is what a move attempt at time `now` with
    /// outcome `success` leaves.
    pub open spec fn moved_by(self, post: Game, success: bool, now: u64) -> bool {
        &&& post.board == self.board
        &&& post.hold == self.hold
        &&& post.bags == self.bags
        &&& post.can_hold == self.can_hold
        &&& post.das_charge_left == self.das_charge_left
        &&& post.das_charge_right == self.das_charge_right
        &&& post.last_touch == touch_after(
            self.last_touch,
            success,
            post.player.y == post.player.ghost_y,
            now,
        )
        &&& post.canceled_drop == resets_after(
            self.last_touch,
            self.canceled_drop,
            success,
            post.player.y == post.player.ghost_y,
            self.player.y > post.player.y,
        )
    }

    /// True iff `post` is the state after `shift(x, y, now)` on `self`.
    pub open spec fn shifted(self, x: int, y: int, now: u64, post: Game) -> bool {
        let p = self.player;
        let moved = pose_free(p.mino_type, p.direction, p.x + x, p.y + y, self.board);
        &&& if moved {
            post.player.placed(p.mino_type, p.direction, p.x + x, p.y + y, self.board)
        } else {
            post.player == p
        }
        &&& self.moved_by(post, moved, now)
    }

    /// True iff `post` is the state after `rotate(direction, now)` on `self`.
    pub open spec fn rotated(self, direction: Direction, now: u64, post: Game) -> bool {
        let p = self.player;
        let to = p.direction.plus(direction);
        let chosen = p.chosen_kick(to, self.board);
        &&& match chosen {
            Some(i) => {
                let k = kick(p.mino_type, p.direction, to, i);
                post.player.placed(p.mino_type, to, p.x + k.0, p.y + k.1, self.board)
            },
            None => post.player == p,
        }
        &&& self.moved_by(post, chosen.is_some(), now)
    }

    /// True iff `post` is a state after `lock_player()` on `self`: the piece has become
    /// blocks at its ghost row, full rows are gone, and a piece drawn from the bag
    /// stands at the spawn pose.
    pub open spec fn locked(self, post: Game) -> bool {
        let p = self.player;
        &&& post.board@ == cleared(
            stamped(
                self.board@,
                p.mino_type,
                p.direction,
                p.x as int,
                p.ghost_y as int,
                Cell::Mino(p.mino_type),
            ),
        )
        &&& draw(self.bags@, post.bags@, post.player.mino_type)
        &&& post.player.spawned(post.player.mino_type, post.board)
        &&& post.hold == self.hold
        &&& post.can_hold
        &&& post.last_touch is None
        &&& post.canceled_drop == 0
        &&& post.das_charge_left == self.das_charge_left
        &&& post.das_charge_right == self.das_charge_right
    }

    /// True iff `post` is a state after `swap_hold()` on `self`.
    pub open spec fn held(self, post: Game) -> bool {
        if self.can_hold {
            &&& post.board == self.board
            &&& post.hold == Some(self.player.mino_type)
            &&& !post.can_hold
            &&& post.player.spawned(post.player.mino_type, post.board)
            &&& match self.hold {
                Some(shape) => post.player.mino_type == shape && post.bags == self.bags,
                None => draw(self.bags@, post.bags@, post.player.mino_type),
            }
            &&& post.last_touch == self.last_touch
            &&& post.canceled_drop == self.canceled_drop
            &&& post.das_charge_left == self.das_charge_left
            &&& post.das_charge_right == self.das_charge_right
        } else {
            post == self
        }
    }

    /// What a square of the picture shows: the piece where the piece lies, else the
    /// landing preview where the piece would come to rest, else what the board holds.
    pub open spec fn shown(self, x: int, y: int) -> Cell {
        let p = self.player;
        if pose_covers(p.mino_type, p.direction, p.x as int, p.y as int, x, y) {
            Cell::Mino(p.mino_type)
        } else if pose_covers(p.mino_type, p.direction, p.x as int, p.ghost_y as int, x, y) {
            Cell::Shadow
        } else {
            self.board.at(x, y)
        }
    }

    /// The grid to draw: the board with the landing preview and the piece laid over it.
    pub fn overlay(&self) -> (grid: [[Cell; 10]; 24])
        requires
            self.wf(),
        ensures
            forall|x: int, y: int| in_bounds(x, y) ==> grid@[y]@[x] == #[trigger] self.shown(x, y),
    {
        let landed = self.player.get_ghost();
        proof {
            if self.player.ghost_y < self.player.y {
                lemma_free_pose_on_board(
                    self.player.mino_type,
                    self.player.direction,
                    self.player.x as int,
                    self.player.ghost_y as int,
                    self.board,
                );
            }
            assert(landed.on_board());
        }
        let mut picture = self.board;
        stamp(&mut picture, &landed, Cell::Shadow);
        stamp(&mut picture, &self.player, Cell::Mino(self.player.mino_type));
        proof {
            assert forall|x: int, y: int| in_bounds(x, y) implies picture@[y][x] == #[trigger] self.shown(
                x,
                y,
            ) by {
                assert(self.board@[y][x] == self.board.at(x, y));
            }
        }
        picture.grid
    }

    /// Whether the state is well formed.
    pub fn is_wf(&self) -> (ok: bool)
        ensures
            ok == self.wf(),
    {
        self.player.is_on_board() && self.player.is_resting(&self.board) && self.bags.is_wf()
            && self.board.is_at_rest()
    }

    pub fn new() -> (game: Game)
        ensures
            game.fresh(),
            game.wf(),
    {
        let mut bag = Bag::new();
        let board = Board::new();
        proof {
            crate::bag::lemma_full_bag_len(bag@);
        }
        let shape = bag.next();
        let player = Mino::new(shape, &board);
        proof {
            lemma_spawn_on_board(shape);
        }
        Game {
            board,
            player,
            hold: None,
            bags: bag,
            can_hold: true,
            last_touch: None,
            canceled_drop: 0,
            das_charge_left: None,
            das_charge_right: None,
        }
    }

    /// Merges the piece into the board at its ghost row, clears the full rows and puts
    /// the next piece of the bag at the spawn pose.
    pub fn lock_player(&mut self)
        requires
            old(self).wf(),
        ensures
            old(self).locked(*final(self)),
            final(self).wf(),
    {
        proof {
            if self.player.ghost_y < self.player.y {
                lemma_free_pose_on_board(
                    self.player.mino_type,
                    self.player.direction,
                    self.player.x as int,
                    self.player.ghost_y as int,
                    self.board,
                );
            }
            assert(self.player.cell(
                match self.player.mino_type {
                    MinoType::J | MinoType::Z => 2,
                    _ => 1,
                },
            ) == (self.player.x as int, self.player.y as int));
        }
        let fall: i8 = self.player.ghost_y - self.player.y;
        self.player.shift(0, fall, &self.board);
        assert(self.player.y == old(self).player.ghost_y);
        assert(self.player.on_board()) by {
            if self.player != old(self).player {
                lemma_free_pose_on_board(
                    self.player.mino_type,
                    self.player.direction,
                    self.player.x as int,
                    self.player.y as int,
                    self.board,
                );
            }
        }
        stamp(&mut self.board, &self.player, Cell::Mino(self.player.mino_type));
        let ghost merged = self.board@;
        self.board.clear_lines();
        proof {
            old(self).board.lemma_grid_shaped();
            assert(settled(merged));
            lemma_cleared_keeps_shape(merged);
        }
        let shape = self.bags.next();
        self.player = Mino::new(shape, &self.board);
        proof {
            lemma_spawn_on_board(shape);
        }
        self.can_hold = true;
        self.last_touch = None;
        self.canceled_drop = 0;
    }

    /// Removes every full row of the board.
    pub fn clear_lines(&mut self)
        ensures
            final(self).board@ == cleared(old(self).board@),
            final(self).player == old(self).player,
            final(self).hold == old(self).hold,
            final(self).bags == old(self).bags,
            final(self).can_hold == old(self).can_hold,
            final(self).last_touch == old(self).last_touch,
            final(self).canceled_drop == old(self).canceled_drop,
            final(self).das_charge_left == old(self).das_charge_left,
            final(self).das_charge_right == old(self).das_charge_right,
    {
        self.board.clear_lines();
    }

    /// Swaps the shape of the piece with the hold slot, or parks it there and draws
    /// from the bag if the slot is empty. Allowed once between two locks.
    pub fn swap_hold(&mut self)
        requires
            old(self).wf(),
        ensures
            old(self).held(*final(self)),
            final(self).wf(),
    {
        if self.can_hold {
            let prev_type = self.player.mino_type;
            let shape = match self.hold {
                Some(hold) => hold,
                None => self.bags.next(),
            };
            self.player = Mino::new(shape, &self.board);
            proof {
                lemma_spawn_on_board(shape);
            }
            self.hold = Some(prev_type);
            self.can_hold = false;
        }
    }

    /// Tries to move the piece by `(x, y)` at time `now`, then runs the bookkeeping of
    /// the lock delay.
    pub fn shift(&mut self, x: i8, y: i8, now: u64)
        requires
            old(self).wf(),
        ensures
            old(self).shifted(x as int, y as int, now, *final(self)),
            final(self).wf(),
    {
        let last_line = self.player.y;
        let success = self.player.shift(x, y, &self.board);
        proof {
            if success {
                lemma_free_pose_on_board(
                    self.player.mino_type,
                    self.player.direction,
                    self.player.x as int,
                    self.player.y as int,
                    self.board,
                );
            }
        }
        let moved_down = last_line > self.player.y;
        self.move_reset(success, moved_down, now);
    }

    /// Tries to turn the piece by `direction` at time `now`, then runs the bookkeeping
    /// of the lock delay.
    pub fn rotate(&mut self, direction: Direction, now: u64)
        requires
            old(self).wf(),
        ensures
            old(self).rotated(direction, now, *final(self)),
            final(self).wf(),
    {
        let last_line = self.player.y;
        let success = self.player.rotate(direction, &self.board);
        proof {
            if success {
                lemma_free_pose_on_board(
                    self.player.mino_type,
                    self.player.direction,
                    self.player.x as int,
                    self.player.y as int,
                    self.board,
                );
            }
        }
        let moved_down = last_line > self.player.y;
        self.move_reset(success, moved_down, now);
    }

    /// The bookkeeping of the lock delay after a move attempt at time `now`. `success`
    /// says whether the piece moved, `move_down` whether the move took it down.
    pub fn move_reset(&mut self, success: bool, move_down: bool, now: u64)
        ensures
            final(self).board == old(self).board,
            final(self).player == old(self).player,
            final(self).hold == old(self).hold,
            final(self).bags == old(self).bags,
            final(self).can_hold == old(self).can_hold,
            final(self).das_charge_left == old(self).das_charge_left,
            final(self).das_charge_right == old(self).das_charge_right,
            final(self).last_touch == touch_after(
                old(self).last_touch,
                success,
                old(self).player.y == old(self).player.ghost_y,
                now,
            ),
            final(self).canceled_drop == resets_after(
                old(self).last_touch,
                old(self).canceled_drop,
                success,
                old(self).player.y == old(self).player.ghost_y,
                move_down,
            ),
    {
        if self.last_touch.is_none() {
            if self.player.is_bottom() {
                self.last_touch = Some(now);
                self.canceled_drop = 0;
            }
        } else {
            if success {
                self.canceled_drop = self.canceled_drop.saturating_add(1);
                if self.player.is_bottom() {
                    self.last_touch = Some(now);
                } else {
                    self.last_touch = None;
                }
            }
        }
        if move_down {
            self.canceled_drop = 0;
        }
    }
}

} // verus!
