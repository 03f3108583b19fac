//! The event core: every key press and every timer that runs out reaches the game as
//! one event, in the order of arrival, together with the time at which it is handled.
//!
//! The engine starts no timer by itself and cancels none. It tells its caller which
//! timers to start, and when the event of a timer arrives it looks whether the timer
//! still has a point: a lock timer only locks a piece that has been touching for the
//! full delay, a repeat timer only shifts while a direction is charging.

use vstd::prelude::*;
use crate::control::ControlKind;
use crate::game::Game;
use crate::shape::Direction;

verus! {

/// What the engine reacts to.
#[derive(Debug, Clone, Copy, PartialEq, Eq, Structural)]
pub enum Event {
    /// A control sent by the input loop.
    Control(ControlKind),
    /// The gravity timer ran out.
    Tick,
    /// The repeat timer ran out.
    ArrTick,
    /// A lock timer ran out.
    FixTimeout,
}

/// The intervals of the timers, in the unit that the timestamps count.
#[derive(Debug, Clone, Copy, PartialEq, Eq, Structural)]
pub struct Timing {
    /// Time between two steps of gravity.
    pub gravity: u64,
    /// Time a direction key is held before the shift starts to repeat.
    pub das: u64,
    /// Time between two repeated shifts.
    pub arr: u64,
    /// Time a piece touches the ground before it locks.
    pub lock_delay: u64,
}

/// What the caller is to do after an event has been handled.
#[derive(Debug, Clone, Copy, PartialEq, Eq, Structural)]
pub struct Reaction {
    /// Leave the game.
    pub quit: bool,
    /// Send `Event::FixTimeout` after this delay.
    pub lock_timer: Option<u64>,
    /// Send `Event::ArrTick` after this delay.
    pub arr_timer: Option<u64>,
}

/// True iff a direction is charging.
pub open spec fn charging(game: Game) -> bool {
    game.das_charge_left is Some || game.das_charge_right is Some
}

/// The column step of the direction that repeats: -1 for left, 1 for right, 0 for
/// none. Of two charging directions the one that began to charge first repeats.
pub open spec fn repeat_step(left: Option<u64>, right: Option<u64>) -> int {
    match (left, right) {
        (Some(l), Some(r)) => if l < r {
            -1
        } else if r < l {
            1
        } else {
            0
        },
        (Some(_), None) => -1,
        (None, Some(_)) => 1,
        (None, None) => 0,
    }
}

/// True iff a lock timer that runs out at time `now` locks the piece: the piece is
/// grounded and has been touching for the full delay.
pub open spec fn lock_due(game: Game, now: u64, lock_delay: u64) -> bool {
    &&& game.last_touch matches Some(touch)
    &&& now - touch >= lock_delay
    &&& game.player.y == game.player.ghost_y
}

/// The start of a charge at time `now`: it is noted unless a charge is under way.
pub open spec fn charge_begun(charge: Option<u64>, now: u64) -> Option<u64> {
    if charge is None {
        Some(now)
    } else {
        charge
    }
}

/// True iff `post` is a game state after `event` was handled at time `now` in state
/// `pre`.
pub open spec fn game_after(pre: Game, event: Event, now: u64, lock_delay: u64, post: Game) -> bool {
    match event {
        Event::Control(ControlKind::Quit) => post == pre,
        Event::Control(ControlKind::Left) => pre.shifted(-1, 0, now, post),
        Event::Control(ControlKind::Right) => pre.shifted(1, 0, now, post),
        Event::Control(ControlKind::SoftDrop) => pre.shifted(0, -1, now, post),
        Event::Control(ControlKind::Rotate) => pre.rotated(Direction::R, now, post),
        Event::Control(ControlKind::RotateCC) => pre.rotated(Direction::L, now, post),
        Event::Control(ControlKind::Rotate180) => pre.rotated(Direction::D, now, post),
        Event::Control(ControlKind::HardDrop) => pre.locked(post),
        Event::Control(ControlKind::Hold) => pre.held(post),
        Event::Control(ControlKind::LeftDasStart) => post == (Game {
            das_charge_left: charge_begun(pre.das_charge_left, now),
            ..pre
        }),
        Event::Control(ControlKind::LeftDasEnd) => post == (Game { das_charge_left: None, ..pre }),
        Event::Control(ControlKind::RightDasStart) => post == (Game {
            das_charge_right: charge_begun(pre.das_charge_right, now),
            ..pre
        }),
        Event::Control(ControlKind::RightDasEnd) => post == (Game {
            das_charge_right: None,
            ..pre
        }),
        Event::Tick => pre.shifted(0, -1, now, post),
        Event::ArrTick => {
            let step = repeat_step(pre.das_charge_left, pre.das_charge_right);
            if step < 0 {
                pre.shifted(-1, 0, now, post)
            } else if step > 0 {
                pre.shifted(1, 0, now, post)
            } else {
                post == pre
            }
        },
        Event::FixTimeout => if lock_due(pre, now, lock_delay) {
            pre.locked(post)
        } else {
            post == pre
        },
    }
}

/// The direction that repeats, as a column step.
fn repeat_direction(left: Option<u64>, right: Option<u64>) -> (step: i8)
    ensures
        step == repeat_step(left, right),
{
    match (left, right) {
        (Some(l), Some(r)) => if l < r {
            -1
        } else if r < l {
            1
        } else {
            0
        },
        (Some(_), None) => -1,
        (None, Some(_)) => 1,
        (None, None) => 0,
    }
}

/// The game together with what the event loop keeps between two events.
pub struct Engine {
    pub game: Game,
    pub timing: Timing,
    /// Whether a repeat timer is under way.
    pub arr_armed: bool,
}

impl Engine {
    /// The state is well formed when the game is, and a repeat timer is under way
    /// whenever a direction is charging.
    pub open spec fn wf(self) -> bool {
        &&& self.game.wf()
        &&& charging(self.game) ==> self.arr_armed
    }

    /// True iff `post` and `reaction` are what handling `event` at time `now` in state
    /// `self` can lead to.
    ///
    /// A lock timer is asked for whenever the touch time is set anew. A repeat timer is
    /// asked for when a direction is charging and none is under way, and again each
    /// time one has run out while a direction is still charging.
    pub open spec fn handled(self, event: Event, now: u64, post: Engine, reaction: Reaction) -> bool {
        &&& post.timing == self.timing
        &&& game_after(self.game, event, now, self.timing.lock_delay, post.game)
        &&& reaction.quit == (event == Event::Control(ControlKind::Quit))
        &&& reaction.lock_timer == if post.game.last_touch is Some && post.game.last_touch
            != self.game.last_touch {
            Some(self.timing.lock_delay)
        } else {
            None
        }
        &&& post.arr_armed == (charging(post.game) || (self.arr_armed && event != Event::ArrTick))
        &&& reaction.arr_timer == if charging(post.game) && (event == Event::ArrTick
            || !self.arr_armed) {
            Some(self.timing.arr)
        } else {
            None
        }
    }

    /// Whether the state is well formed.
    pub fn is_wf(&self) -> (ok: bool)
        ensures
            ok == self.wf(),
    {
        self.game.is_wf() && (self.arr_armed || (self.game.das_charge_left.is_none()
            && self.game.das_charge_right.is_none()))
    }

    pub fn new(timing: Timing) -> (engine: Engine)
        ensures
            engine.game.fresh(),
            engine.timing == timing,
            !engine.arr_armed,
            engine.wf(),
    {
        Engine { game: Game::new(), timing, arr_armed: false }
    }

    /// Whether a lock timer that runs out at time `now` locks the piece.
    pub fn lock_due(&self, now: u64) -> (due: bool)
        ensures
            due == lock_due(self.game, now, self.timing.lock_delay),
    {
        match self.game.last_touch {
            Some(touch) => now >= touch && now - touch >= self.timing.lock_delay
                && self.game.player.is_bottom(),
            None => false,
        }
    }

    /// Handles one event at time `now` and says which timers to start.
    pub fn handle(&mut self, event: Event, now: u64) -> (reaction: Reaction)
        requires
            old(self).game.wf(),
        ensures
            old(self).handled(event, now, *final(self), reaction),
            final(self).wf(),
    {
        let touch = self.game.last_touch;
        let mut quit = false;
        match event {
            Event::Control(control) => match control {
                ControlKind::Quit => {
                    quit = true;
                },
                ControlKind::Left => {
                    self.game.shift(-1, 0, now);
                },
                ControlKind::LeftDasStart => {
                    if self.game.das_charge_left.is_none() {
                        self.game.das_charge_left = Some(now);
                    }
                },
                ControlKind::LeftDasEnd => {
                    self.game.das_charge_left = None;
                },
                ControlKind::Right => {
                    self.game.shift(1, 0, now);
                },
                ControlKind::RightDasStart => {
                    if self.game.das_charge_right.is_none() {
                        self.game.das_charge_right = Some(now);
                    }
                },
                ControlKind::RightDasEnd => {
                    self.game.das_charge_right = None;
                },
                ControlKind::SoftDrop => {
                    self.game.shift(0, -1, now);
                },
                ControlKind::Rotate => {
                    self.game.rotate(Direction::R, now);
                },
                ControlKind::RotateCC => {
                    self.game.rotate(Direction::L, now);
                },
                ControlKind::Rotate180 => {
                    self.game.rotate(Direction::D, now);
                },
                ControlKind::HardDrop => {
                    self.game.lock_player();
                },
                ControlKind::Hold => {
                    self.game.swap_hold();
                },
            },
            Event::Tick => {
                self.game.shift(0, -1, now);
            },
            Event::ArrTick => {
                let step = repeat_direction(self.game.das_charge_left, self.game.das_charge_right);
                if step != 0 {
                    self.game.shift(step, 0, now);
                }
            },
            Event::FixTimeout => {
                if self.lock_due(now) {
                    self.game.lock_player();
                }
            },
        }
        let lock_timer = match self.game.last_touch {
            Some(after) => {
                let renewed = match touch {
                    Some(before) => before != after,
                    None => true,
                };
                if renewed {
                    Some(self.timing.lock_delay)
                } else {
                    None
                }
            },
            None => None,
        };
        let is_charging = self.game.das_charge_left.is_some() || self.game.das_charge_right.is_some();
        let ran_out = matches!(event, Event::ArrTick);
        let arr_timer = if is_charging && (ran_out || !self.arr_armed) {
            Some(self.timing.arr)
        } else {
            None
        };
        self.arr_armed = is_charging || (self.arr_armed && !ran_out);
        Reaction { quit, lock_timer, arr_timer }
    }
}

/// Lock delay, the wait. While a grounded piece touches, a lock timer that runs out
/// a full delay or more after the touch time locks it, and one that runs out sooner
/// changes nothing and asks for no timer.
pub proof fn lemma_lock_waits_full_delay(
    pre: Engine,
    touch: u64,
    now: u64,
    post: Engine,
    reaction: Reaction,
)
    requires
        pre.game.last_touch == Some(touch),
        pre.game.player.y == pre.game.player.ghost_y,
        pre.handled(Event::FixTimeout, now, post, reaction),
    ensures
        now - touch >= pre.timing.lock_delay ==> pre.game.locked(post.game),
        now - touch < pre.timing.lock_delay ==> post.game == pre.game && reaction.lock_timer
            is None,
{
}

/// Lock delay, the start. Whenever an event leaves the piece with a touch time that
/// it did not have before, the reaction asks for a lock timer of the full delay.
pub proof fn lemma_touch_starts_lock_timer(
    pre: Engine,
    event: Event,
    now: u64,
    post: Engine,
    reaction: Reaction,
)
    requires
        pre.handled(event, now, post, reaction),
        post.game.last_touch is Some,
        post.game.last_touch != pre.game.last_touch,
    ensures
        reaction.lock_timer == Some(pre.timing.lock_delay),
{
}

/// Lock delay, the first touch. A shift after which an untimed piece is grounded
/// notes the time of the shift as the touch time and starts the count of moves at
/// zero, whatever the count was.
pub proof fn lemma_shift_grounds_afresh(pre: Game, x: int, y: int, now: u64, post: Game)
    requires
        pre.last_touch is None,
        pre.shifted(x, y, now, post),
        post.player.y == post.player.ghost_y,
    ensures
        post.last_touch == Some(now),
        post.canceled_drop == 0,
{
}

/// Lock delay, the first touch by a turn: as for a shift.
pub proof fn lemma_rotate_grounds_afresh(pre: Game, direction: Direction, now: u64, post: Game)
    requires
        pre.last_touch is None,
        pre.rotated(direction, now, post),
        post.player.y == post.player.ghost_y,
    ensures
        post.last_touch == Some(now),
        post.canceled_drop == 0,
{
}

/// Lock delay, the deferral. A shift that moves a touching piece and leaves it
/// grounded sets the touch time to the time of the shift, so that no lock timer
/// locks the piece before a full delay has passed since then.
pub proof fn lemma_shift_defers_lock(
    pre: Game,
    x: int,
    y: int,
    now: u64,
    post: Game,
    later: u64,
    lock_delay: u64,
)
    requires
        pre.last_touch is Some,
        pre.shifted(x, y, now, post),
        post.player != pre.player,
        post.player.y == post.player.ghost_y,
        later - now < lock_delay,
    ensures
        post.last_touch == Some(now),
        !lock_due(post, later, lock_delay),
        post.player.y >= pre.player.y && pre.canceled_drop < u8::MAX ==> post.canceled_drop
            == pre.canceled_drop + 1,
{
}

/// Lock delay, the deferral by a turn: as for a shift.
pub proof fn lemma_rotate_defers_lock(
    pre: Game,
    direction: Direction,
    now: u64,
    post: Game,
    later: u64,
    lock_delay: u64,
)
    requires
        pre.last_touch is Some,
        pre.rotated(direction, now, post),
        post.player != pre.player,
        post.player.y == post.player.ghost_y,
        later - now < lock_delay,
    ensures
        post.last_touch == Some(now),
        !lock_due(post, later, lock_delay),
{
}

/// Lock delay, the cancellation. A shift that lifts a touching piece off the ground
/// clears the touch time, so that a lock timer that is under way locks nothing.
pub proof fn lemma_lift_cancels_lock(
    pre: Game,
    x: int,
    y: int,
    now: u64,
    post: Game,
    later: u64,
    lock_delay: u64,
)
    requires
        pre.last_touch is Some,
        pre.shifted(x, y, now, post),
        post.player != pre.player,
        post.player.y != post.player.ghost_y,
    ensures
        post.last_touch is None,
        !lock_due(post, later, lock_delay),
{
}

/// The start of the charge of one direction, as an event.
pub open spec fn charge_start(left: bool) -> Event {
    if left {
        Event::Control(ControlKind::LeftDasStart)
    } else {
        Event::Control(ControlKind::RightDasStart)
    }
}

/// The end of the charge of one direction, as an event.
pub open spec fn charge_end(left: bool) -> Event {
    if left {
        Event::Control(ControlKind::LeftDasEnd)
    } else {
        Event::Control(ControlKind::RightDasEnd)
    }
}

/// The charge of one direction.
pub open spec fn charge_of(game: Game, left: bool) -> Option<u64> {
    if left {
        game.das_charge_left
    } else {
        game.das_charge_right
    }
}

/// Auto-repeat, the start. The start of a charge, arriving while no direction is
/// charging and no repeat timer is under way, notes the time and asks for a repeat
/// timer of one repeat interval; the piece stays where it is.
pub proof fn lemma_charge_starts_repeat(
    pre: Engine,
    left: bool,
    now: u64,
    post: Engine,
    reaction: Reaction,
)
    requires
        !charging(pre.game),
        !pre.arr_armed,
        pre.handled(charge_start(left), now, post, reaction),
    ensures
        charge_of(post.game, left) == Some(now),
        charge_of(post.game, !left) is None,
        post.game.player == pre.game.player,
        reaction.arr_timer == Some(pre.timing.arr),
        post.arr_armed,
{
}

/// Auto-repeat, the repeats. Each repeat timer that runs out while one direction
/// alone is charging shifts the piece one column in that direction, if it can go
/// there, and asks for the next repeat timer one repeat interval later.
pub proof fn lemma_repeat_while_charging(
    pre: Engine,
    left: bool,
    now: u64,
    post: Engine,
    reaction: Reaction,
)
    requires
        charge_of(pre.game, left) is Some,
        charge_of(pre.game, !left) is None,
        pre.handled(Event::ArrTick, now, post, reaction),
    ensures
        pre.game.shifted(
            if left {
                -1
            } else {
                1
            },
            0,
            now,
            post.game,
        ),
        reaction.arr_timer == Some(pre.timing.arr),
        post.arr_armed,
{
}

/// Auto-repeat, the end. Once the key is let go and no direction is charging, the
/// repeat timer that is under way shifts nothing when it runs out and asks for no
/// further one.
pub proof fn lemma_release_ends_repeat(
    pre: Engine,
    left: bool,
    now: u64,
    mid: Engine,
    released: Reaction,
    later: u64,
    post: Engine,
    reaction: Reaction,
)
    requires
        charge_of(pre.game, !left) is None,
        pre.handled(charge_end(left), now, mid, released),
        mid.handled(Event::ArrTick, later, post, reaction),
    ensures
        !charging(mid.game),
        released.arr_timer is None,
        post.game == mid.game,
        reaction.arr_timer is None,
        !post.arr_armed,
{
}

/// Without a charge there is no repeat: an event that leaves no direction charging
/// asks for no repeat timer.
pub proof fn lemma_no_charge_no_repeat(
    pre: Engine,
    event: Event,
    now: u64,
    post: Engine,
    reaction: Reaction,
)
    requires
        pre.handled(event, now, post, reaction),
        !charging(post.game),
    ensures
        reaction.arr_timer is None,
{
}

} // verus!
