//! The input side: what a key means, and when a held direction key starts to repeat.
//!
//! The input loop keeps one flag per direction, set while that key is held down, and
//! one generation per direction, which every release of the key advances. Pressing
//! the key sends one shift at once and starts a timer that carries the generation of
//! the press. When the timer runs out it starts the charge only if the flag stands
//! and the generation is still the one it carries; a timer whose press has been let
//! go since does nothing, even if the key is down again.

use vstd::prelude::*;

verus! {

/// What the player asks for.
#[derive(Debug, Clone, Copy, PartialEq, Eq, Structural)]
pub enum ControlKind {
    Quit,
    Left,
    LeftDasStart,
    LeftDasEnd,
    Right,
    RightDasStart,
    RightDasEnd,
    SoftDrop,
    Rotate,
    RotateCC,
    Rotate180,
    HardDrop,
    Hold,
}

/// How a key event came about.
#[derive(Debug, Clone, Copy, PartialEq, Eq, Structural)]
pub enum KeyKind {
    Press,
    Repeat,
    Release,
}

/// The key of a key event, as far as the game looks at it.
#[derive(Debug, Clone, Copy, PartialEq, Eq, Structural)]
pub enum Key {
    Char(char),
    Other,
}

/// The state of the input loop: for each direction, whether its key is held down and
/// how often it has been let go.
#[derive(Debug, Clone, Copy, PartialEq, Eq, Structural)]
pub struct DasScan {
    pub left: bool,
    pub right: bool,
    /// Generation of the left key: advanced by every release.
    pub left_generation: u64,
    /// Generation of the right key: advanced by every release.
    pub right_generation: u64,
}

/// A timer of the auto-shift delay: the control it is to deliver, and the generation
/// of the press that started it.
#[derive(Debug, Clone, Copy, PartialEq, Eq, Structural)]
pub struct DasTimer {
    pub control: ControlKind,
    pub generation: u64,
}

/// What the input loop does with one key event.
#[derive(Debug, Clone, Copy, PartialEq, Eq, Structural)]
pub struct KeyAction {
    /// The control to send at once.
    pub control: Option<ControlKind>,
    /// The timer to start now; it runs for the delay of the auto-shift.
    pub timer: Option<DasTimer>,
}

/// The control that a key event stands for.
pub open spec fn key_control(kind: KeyKind, key: Key) -> Option<ControlKind> {
    match (kind, key) {
        (KeyKind::Press, Key::Char('q')) => Some(ControlKind::Quit),
        (KeyKind::Press, Key::Char('j')) => Some(ControlKind::SoftDrop),
        (KeyKind::Press, Key::Char(' ')) => Some(ControlKind::HardDrop),
        (KeyKind::Press, Key::Char('y')) => Some(ControlKind::Hold),
        (KeyKind::Press, Key::Char('a')) => Some(ControlKind::RotateCC),
        (KeyKind::Press, Key::Char('s')) => Some(ControlKind::Rotate180),
        (KeyKind::Press, Key::Char('d')) => Some(ControlKind::Rotate),
        (KeyKind::Press, Key::Char('h')) => Some(ControlKind::Left),
        (KeyKind::Press, Key::Char('l')) => Some(ControlKind::Right),
        (KeyKind::Release, Key::Char('h')) => Some(ControlKind::LeftDasEnd),
        (KeyKind::Release, Key::Char('l')) => Some(ControlKind::RightDasEnd),
        _ => None,
    }
}

/// The generation that follows `generation`. It differs from `generation`; after the
/// largest number the count starts again at zero.
pub open spec fn next_generation(generation: u64) -> u64 {
    if generation == u64::MAX {
        0
    } else {
        (generation + 1) as u64
    }
}

/// The state after a key event: pressing a direction key sets its flag, letting it go
/// clears the flag and advances the generation.
pub open spec fn key_scan(scan: DasScan, kind: KeyKind, key: Key) -> DasScan {
    match key_control(kind, key) {
        Some(ControlKind::Left) => DasScan { left: true, ..scan },
        Some(ControlKind::Right) => DasScan { right: true, ..scan },
        Some(ControlKind::LeftDasEnd) => DasScan {
            left: false,
            left_generation: next_generation(scan.left_generation),
            ..scan
        },
        Some(ControlKind::RightDasEnd) => DasScan {
            right: false,
            right_generation: next_generation(scan.right_generation),
            ..scan
        },
        _ => scan,
    }
}

/// The timer that a key event starts: one for the direction whose key went down, with
/// the generation of that direction, unless its flag stood already.
pub open spec fn key_timer(scan: DasScan, kind: KeyKind, key: Key) -> Option<DasTimer> {
    match key_control(kind, key) {
        Some(ControlKind::Left) if !scan.left => Some(
            DasTimer { control: ControlKind::LeftDasStart, generation: scan.left_generation },
        ),
        Some(ControlKind::Right) if !scan.right => Some(
            DasTimer { control: ControlKind::RightDasStart, generation: scan.right_generation },
        ),
        _ => None,
    }
}

/// What a timer delivers when it runs out: its control if the flag stands and the
/// generation is the one the timer carries, nothing otherwise.
pub open spec fn timer_delivers(is_scanning: bool, generation: u64, timer: DasTimer) -> Option<
    ControlKind,
> {
    if is_scanning && generation == timer.generation {
        Some(timer.control)
    } else {
        None
    }
}

/// What a timer delivers when it runs out in state `scan`: a timer for the start of
/// the left charge looks at the left key, any other at the right key.
pub open spec fn scan_delivers(scan: DasScan, timer: DasTimer) -> Option<ControlKind> {
    if timer.control == ControlKind::LeftDasStart {
        timer_delivers(scan.left, scan.left_generation, timer)
    } else {
        timer_delivers(scan.right, scan.right_generation, timer)
    }
}

/// Raises the flag of a direction whose key went down. Returns the timer to start, or
/// `None` if the flag stood already: then a timer is under way and no second one is
/// started.
pub fn das_timeout(is_scanning: &mut bool, generation: u64, control: ControlKind) -> (timer:
    Option<DasTimer>)
    ensures
        *final(is_scanning),
        timer == if *old(is_scanning) {
            None
        } else {
            Some(DasTimer { control, generation })
        },
{
    if !*is_scanning {
        *is_scanning = true;
        Some(DasTimer { control, generation })
    } else {
        None
    }
}

/// Lowers the flag of a direction whose key was let go and advances its generation,
/// so that the timers started before no longer count.
pub fn stop_das(is_scanning: &mut bool, generation: &mut u64)
    ensures
        !*final(is_scanning),
        *final(generation) == next_generation(*old(generation)),
        *final(generation) != *old(generation),
{
    *is_scanning = false;
    *generation = generation.wrapping_add(1);
}

/// What a timer does when it has run out: it delivers its control only if the flag
/// stands and no release has come since the press that started it.
pub fn das_expired(is_scanning: bool, generation: u64, timer: DasTimer) -> (sent: Option<
    ControlKind,
>)
    ensures
        sent == timer_delivers(is_scanning, generation, timer),
{
    if is_scanning && generation == timer.generation {
        Some(timer.control)
    } else {
        None
    }
}

impl DasScan {
    pub fn new() -> (scan: DasScan)
        ensures
            scan == (DasScan { left: false, right: false, left_generation: 0, right_generation: 0 }),
    {
        DasScan { left: false, right: false, left_generation: 0, right_generation: 0 }
    }

    /// What `timer` delivers now that it has run out.
    pub fn expired(&self, timer: DasTimer) -> (sent: Option<ControlKind>)
        ensures
            sent == scan_delivers(*self, timer),
    {
        match timer.control {
            ControlKind::LeftDasStart => das_expired(self.left, self.left_generation, timer),
            _ => das_expired(self.right, self.right_generation, timer),
        }
    }

    /// Decides what one key event leads to: the control to send, the timer to start,
    /// and the new state.
    pub fn handle_key(&mut self, kind: KeyKind, key: Key) -> (action: KeyAction)
        ensures
            action.control == key_control(kind, key),
            action.timer == key_timer(*old(self), kind, key),
            *final(self) == key_scan(*old(self), kind, key),
    {
        match (kind, key) {
            (KeyKind::Press, Key::Char(c)) => {
                if c == 'q' {
                    KeyAction { control: Some(ControlKind::Quit), timer: None }
                } else if c == 'j' {
                    KeyAction { control: Some(ControlKind::SoftDrop), timer: None }
                } else if c == ' ' {
                    KeyAction { control: Some(ControlKind::HardDrop), timer: None }
                } else if c == 'y' {
                    KeyAction { control: Some(ControlKind::Hold), timer: None }
                } else if c == 'a' {
                    KeyAction { control: Some(ControlKind::RotateCC), timer: None }
                } else if c == 's' {
                    KeyAction { control: Some(ControlKind::Rotate180), timer: None }
                } else if c == 'd' {
                    KeyAction { control: Some(ControlKind::Rotate), timer: None }
                } else if c == 'h' {
                    let timer = das_timeout(
                        &mut self.left,
                        self.left_generation,
                        ControlKind::LeftDasStart,
                    );
                    KeyAction { control: Some(ControlKind::Left), timer }
                } else if c == 'l' {
                    let timer = das_timeout(
                        &mut self.right,
                        self.right_generation,
                        ControlKind::RightDasStart,
                    );
                    KeyAction { control: Some(ControlKind::Right), timer }
                } else {
                    KeyAction { control: None, timer: None }
                }
            },
            (KeyKind::Release, Key::Char(c)) => {
                if c == 'h' {
                    stop_das(&mut self.left, &mut self.left_generation);
                    KeyAction { control: Some(ControlKind::LeftDasEnd), timer: None }
                } else if c == 'l' {
                    stop_das(&mut self.right, &mut self.right_generation);
                    KeyAction { control: Some(ControlKind::RightDasEnd), timer: None }
                } else {
                    KeyAction { control: None, timer: None }
                }
            },
            _ => KeyAction { control: None, timer: None },
        }
    }
}

/// True iff `key` is one of the two direction keys.
pub open spec fn direction_key(key: char) -> bool {
    key == 'h' || key == 'l'
}

/// The flag that belongs to a direction key.
pub open spec fn held(scan: DasScan, key: char) -> bool {
    if key == 'h' {
        scan.left
    } else {
        scan.right
    }
}

/// The single shift that pressing a direction key sends.
pub open spec fn shift_of(key: char) -> ControlKind {
    if key == 'h' {
        ControlKind::Left
    } else {
        ControlKind::Right
    }
}

/// The start of the charge that belongs to a direction key.
pub open spec fn charge_start_of(key: char) -> ControlKind {
    if key == 'h' {
        ControlKind::LeftDasStart
    } else {
        ControlKind::RightDasStart
    }
}

/// The end of the charge that belongs to a direction key.
pub open spec fn charge_end_of(key: char) -> ControlKind {
    if key == 'h' {
        ControlKind::LeftDasEnd
    } else {
        ControlKind::RightDasEnd
    }
}

/// The state after the direction key `key` went down.
pub open spec fn pressed(scan: DasScan, key: char) -> DasScan {
    key_scan(scan, KeyKind::Press, Key::Char(key))
}

/// The state after the direction key `key` was let go.
pub open spec fn released(scan: DasScan, key: char) -> DasScan {
    key_scan(scan, KeyKind::Release, Key::Char(key))
}

/// The timer, if any, that pressing the direction key `key` starts.
pub open spec fn press_timer(scan: DasScan, key: char) -> Option<DasTimer> {
    key_timer(scan, KeyKind::Press, Key::Char(key))
}

/// A tap: a direction key that goes down and is let go before its timer runs out
/// sends the single shift of the press and the end of the charge, and the timer
/// delivers nothing when it runs out, so no charge begins.
pub proof fn lemma_tap_sends_one_shift(scan: DasScan, key: char)
    requires
        direction_key(key),
        !held(scan, key),
    ensures
        key_control(KeyKind::Press, Key::Char(key)) == Some(shift_of(key)),
        key_control(KeyKind::Release, Key::Char(key)) == Some(charge_end_of(key)),
        press_timer(scan, key) is Some,
        press_timer(scan, key).unwrap().control == charge_start_of(key),
        key_timer(pressed(scan, key), KeyKind::Release, Key::Char(key)) is None,
        scan_delivers(released(pressed(scan, key), key), press_timer(scan, key).unwrap()) is None,
{
}

/// A hold: while a direction key stays down, its timer delivers the start of the
/// charge when it runs out, and further presses of the key start no second timer.
pub proof fn lemma_hold_starts_charge(scan: DasScan, key: char)
    requires
        direction_key(key),
        !held(scan, key),
    ensures
        scan_delivers(pressed(scan, key), press_timer(scan, key).unwrap()) == Some(
            charge_start_of(key),
        ),
        press_timer(pressed(scan, key), key) is None,
        pressed(pressed(scan, key), key) == pressed(scan, key),
{
}

/// A tap followed by a hold: the key goes down, is let go and goes down again before
/// the first timer has run out. The second press starts a timer of its own. When the
/// first timer runs out it delivers nothing, although the key is down; the second
/// delivers the start of the charge. So the charge starts once, a full delay after
/// the press that is still held.
pub proof fn lemma_stale_timer_delivers_nothing(scan: DasScan, key: char)
    requires
        direction_key(key),
        !held(scan, key),
    ensures
        ({
            let first = press_timer(scan, key);
            let up = released(pressed(scan, key), key);
            let second = press_timer(up, key);
            let down = pressed(up, key);
            &&& first is Some
            &&& second is Some
            &&& held(down, key)
            &&& scan_delivers(down, first.unwrap()) is None
            &&& scan_delivers(down, second.unwrap()) == Some(charge_start_of(key))
            &&& press_timer(down, key) is None
        }),
{
}

/// A timer delivers nothing once its key has been let go, whatever happens to the
/// key before the next release: its generation is no longer the current one.
pub proof fn lemma_release_outdates_timers(scan: DasScan, key: char, timer: DasTimer)
    requires
        direction_key(key),
        timer.control == charge_start_of(key),
        timer.generation == if key == 'h' {
            scan.left_generation
        } else {
            scan.right_generation
        },
    ensures
        scan_delivers(released(scan, key), timer) is None,
        scan_delivers(pressed(released(scan, key), key), timer) is None,
{
}

/// At most one timer of a direction delivers: two timers that both deliver in the
/// same state carry the same control and the same generation.
pub proof fn lemma_one_timer_per_direction(scan: DasScan, a: DasTimer, b: DasTimer)
    requires
        scan_delivers(scan, a) is Some,
        scan_delivers(scan, b) is Some,
        (a.control == ControlKind::LeftDasStart) == (b.control == ControlKind::LeftDasStart),
    ensures
        a.generation == b.generation,
{
}

} // verus!
