use tetris::bag::Bag;
use tetris::board::Cell;
use tetris::control::ControlKind;
use tetris::engine::{Engine, Event, Reaction, Timing};
use tetris::mino::Mino;
use tetris::shape::{Direction, MinoType};

const TIMING: Timing = Timing { gravity: 1000, das: 122, arr: 5, lock_delay: 500 };

const QUIET: Reaction = Reaction { quit: false, lock_timer: None, arr_timer: None };

fn engine_with(shape: MinoType, upcoming: Vec<MinoType>) -> Engine {
    let mut engine = Engine::new(TIMING);
    engine.game.bags = Bag { list: upcoming };
    engine.game.player = Mino::new(shape, &engine.game.board);
    engine
}

fn grounded_engine() -> Engine {
    let mut engine = engine_with(MinoType::O, vec![MinoType::I, MinoType::T]);
    let mut mino = Mino { mino_type: MinoType::O, direction: Direction::Z, ghost_y: 0, x: 4, y: 0 };
    mino.update_ghost_y(&engine.game.board);
    engine.game.player = mino;
    engine
}

fn control(engine: &mut Engine, kind: ControlKind, now: u64) -> Reaction {
    engine.handle(Event::Control(kind), now)
}

fn occupied(engine: &Engine) -> usize {
    engine.game.board.grid.iter().flatten().filter(|c| !c.is_empty()).count()
}

#[test]
fn new_engine_keeps_the_timing_and_runs_no_timer() {
    let engine = Engine::new(TIMING);
    assert_eq!(engine.timing, TIMING);
    assert!(!engine.arr_armed);
    assert_eq!(engine.game.last_touch, None);
    assert_eq!((engine.game.player.x, engine.game.player.y), (4, 18));
}

#[test]
fn quit_is_reported_and_changes_nothing() {
    let mut engine = engine_with(MinoType::T, vec![MinoType::I]);
    let player = engine.game.player;
    let reaction = control(&mut engine, ControlKind::Quit, 1);
    assert_eq!(reaction, Reaction { quit: true, lock_timer: None, arr_timer: None });
    assert_eq!(engine.game.player, player);
    assert_eq!(occupied(&engine), 0);
}

#[test]
fn controls_move_and_turn_the_piece() {
    let mut engine = engine_with(MinoType::T, vec![MinoType::I]);
    assert_eq!(control(&mut engine, ControlKind::Left, 1), QUIET);
    assert_eq!((engine.game.player.x, engine.game.player.y), (3, 18));
    control(&mut engine, ControlKind::Right, 2);
    control(&mut engine, ControlKind::Right, 3);
    assert_eq!(engine.game.player.x, 5);
    control(&mut engine, ControlKind::SoftDrop, 4);
    assert_eq!(engine.game.player.y, 17);
    control(&mut engine, ControlKind::Rotate, 5);
    assert_eq!(engine.game.player.direction, Direction::R);
    control(&mut engine, ControlKind::Rotate180, 6);
    assert_eq!(engine.game.player.direction, Direction::L);
    control(&mut engine, ControlKind::RotateCC, 7);
    assert_eq!(engine.game.player.direction, Direction::D);
}

#[test]
fn gravity_tick_moves_the_piece_down_by_one() {
    let mut engine = engine_with(MinoType::T, vec![MinoType::I]);
    assert_eq!(engine.handle(Event::Tick, 1000), QUIET);
    assert_eq!((engine.game.player.x, engine.game.player.y), (4, 17));
}

#[test]
fn hard_drop_locks_at_once() {
    let mut engine = engine_with(MinoType::O, vec![MinoType::I, MinoType::T]);
    let reaction = control(&mut engine, ControlKind::HardDrop, 1);
    assert_eq!(reaction, QUIET);
    assert_eq!(engine.game.board.grid[0][4], Cell::Mino(MinoType::O));
    assert_eq!(occupied(&engine), 4);
    assert_eq!(engine.game.player.mino_type, MinoType::T);
}

#[test]
fn hold_swaps_through_the_engine() {
    let mut engine = engine_with(MinoType::O, vec![MinoType::I, MinoType::T]);
    control(&mut engine, ControlKind::Hold, 1);
    assert_eq!(engine.game.hold, Some(MinoType::O));
    assert_eq!(engine.game.player.mino_type, MinoType::T);
    assert!(!engine.game.can_hold);
}

#[test]
fn becoming_grounded_asks_for_a_lock_timer_of_the_full_delay() {
    let mut engine = engine_with(MinoType::O, vec![MinoType::I, MinoType::T]);
    for step in 0..17 {
        assert_eq!(control(&mut engine, ControlKind::SoftDrop, step), QUIET);
    }
    let reaction = control(&mut engine, ControlKind::SoftDrop, 100);
    assert_eq!(engine.game.player.y, 0);
    assert_eq!(engine.game.last_touch, Some(100));
    assert_eq!(reaction, Reaction { quit: false, lock_timer: Some(500), arr_timer: None });
}

#[test]
fn lock_timer_locks_after_exactly_the_lock_delay() {
    let mut engine = grounded_engine();
    control(&mut engine, ControlKind::SoftDrop, 100);
    assert_eq!(engine.game.last_touch, Some(100));
    assert!(!engine.lock_due(599));
    assert_eq!(engine.handle(Event::FixTimeout, 599), QUIET);
    assert_eq!(occupied(&engine), 0);
    assert_eq!(engine.game.player.y, 0);
    assert!(engine.lock_due(600));
    assert_eq!(engine.handle(Event::FixTimeout, 600), QUIET);
    assert_eq!(occupied(&engine), 4);
    for (x, y) in [(4, 0), (5, 0), (4, 1), (5, 1)] {
        assert_eq!(engine.game.board.grid[y][x], Cell::Mino(MinoType::O));
    }
    assert_eq!(engine.game.player.mino_type, MinoType::T);
    assert_eq!(engine.game.last_touch, None);
}

#[test]
fn failed_moves_do_not_defer_the_lock() {
    let mut engine = grounded_engine();
    control(&mut engine, ControlKind::SoftDrop, 100);
    assert_eq!(control(&mut engine, ControlKind::SoftDrop, 400), QUIET);
    assert_eq!(engine.game.last_touch, Some(100));
    engine.handle(Event::FixTimeout, 600);
    assert_eq!(occupied(&engine), 4);
}

#[test]
fn a_move_on_the_ground_defers_the_lock_by_a_full_delay() {
    let mut engine = grounded_engine();
    control(&mut engine, ControlKind::SoftDrop, 100);
    let reaction = control(&mut engine, ControlKind::Left, 300);
    assert_eq!(reaction, Reaction { quit: false, lock_timer: Some(500), arr_timer: None });
    assert_eq!(engine.game.last_touch, Some(300));
    // the timer of the first touch runs out: the piece has moved since, nothing locks
    assert_eq!(engine.handle(Event::FixTimeout, 600), QUIET);
    assert_eq!(occupied(&engine), 0);
    assert_eq!(engine.handle(Event::FixTimeout, 799), QUIET);
    assert_eq!(occupied(&engine), 0);
    engine.handle(Event::FixTimeout, 800);
    assert_eq!(occupied(&engine), 4);
    assert_eq!(engine.game.board.grid[0][3], Cell::Mino(MinoType::O));
}

#[test]
fn a_piece_lifted_off_the_ground_is_not_locked() {
    let mut engine = engine_with(MinoType::O, vec![MinoType::I, MinoType::T]);
    engine.game.board.grid[0][4] = Cell::Mino(MinoType::J);
    let mut mino = Mino { mino_type: MinoType::O, direction: Direction::Z, ghost_y: 1, x: 4, y: 1 };
    mino.update_ghost_y(&engine.game.board);
    engine.game.player = mino;
    control(&mut engine, ControlKind::SoftDrop, 100);
    assert_eq!(engine.game.last_touch, Some(100));
    control(&mut engine, ControlKind::Right, 200);
    control(&mut engine, ControlKind::Right, 210);
    assert_eq!(engine.game.last_touch, None);
    assert_eq!(engine.handle(Event::FixTimeout, 600), QUIET);
    assert_eq!(occupied(&engine), 1);
}

#[test]
fn lock_timer_without_a_touch_does_nothing() {
    let mut engine = engine_with(MinoType::O, vec![MinoType::I]);
    assert!(!engine.lock_due(10_000));
    assert_eq!(engine.handle(Event::FixTimeout, 10_000), QUIET);
    assert_eq!(occupied(&engine), 0);
    assert_eq!(engine.game.player.y, 18);
}

#[test]
fn start_of_a_charge_notes_the_time_and_asks_for_a_repeat_timer() {
    let mut engine = engine_with(MinoType::T, vec![MinoType::I]);
    let reaction = control(&mut engine, ControlKind::LeftDasStart, 122);
    assert_eq!(reaction, Reaction { quit: false, lock_timer: None, arr_timer: Some(5) });
    assert_eq!(engine.game.das_charge_left, Some(122));
    assert!(engine.arr_armed);
    assert_eq!(engine.game.player.x, 4);
    // a second start while charging is ignored
    assert_eq!(control(&mut engine, ControlKind::LeftDasStart, 130), QUIET);
    assert_eq!(engine.game.das_charge_left, Some(122));
}

#[test]
fn repeats_come_one_interval_apart_until_the_key_is_let_go() {
    let mut engine = engine_with(MinoType::T, vec![MinoType::I]);
    control(&mut engine, ControlKind::Left, 0);
    assert_eq!(engine.game.player.x, 3);
    let mut reaction = control(&mut engine, ControlKind::LeftDasStart, 122);
    let mut now = 122;
    for expected_x in [2, 1, 1, 1] {
        now += reaction.arr_timer.unwrap();
        reaction = engine.handle(Event::ArrTick, now);
        assert_eq!(engine.game.player.x, expected_x);
        assert_eq!(reaction.arr_timer, Some(5));
    }
    assert_eq!(now, 142);
    assert_eq!(control(&mut engine, ControlKind::LeftDasEnd, 143), QUIET);
    assert_eq!(engine.game.das_charge_left, None);
    assert_eq!(engine.handle(Event::ArrTick, 147), QUIET);
    assert_eq!(engine.game.player.x, 1);
    assert!(!engine.arr_armed);
}

#[test]
fn a_tap_shifts_once_and_never_repeats() {
    let mut engine = engine_with(MinoType::T, vec![MinoType::I]);
    assert_eq!(control(&mut engine, ControlKind::Left, 0), QUIET);
    assert_eq!(control(&mut engine, ControlKind::LeftDasEnd, 60), QUIET);
    assert_eq!(engine.game.player.x, 3);
    assert!(!engine.arr_armed);
    assert_eq!(engine.handle(Event::ArrTick, 200), QUIET);
    assert_eq!(engine.game.player.x, 3);
}

#[test]
fn of_two_charging_directions_the_first_repeats() {
    let mut engine = engine_with(MinoType::T, vec![MinoType::I]);
    control(&mut engine, ControlKind::RightDasStart, 100);
    assert_eq!(control(&mut engine, ControlKind::LeftDasStart, 150), QUIET);
    engine.handle(Event::ArrTick, 155);
    assert_eq!(engine.game.player.x, 5);
    // the right key is let go: the left charge takes over on the same timer chain
    assert_eq!(control(&mut engine, ControlKind::RightDasEnd, 156), QUIET);
    assert!(engine.arr_armed);
    let reaction = engine.handle(Event::ArrTick, 160);
    assert_eq!(engine.game.player.x, 4);
    assert_eq!(reaction.arr_timer, Some(5));
}

#[test]
fn charges_that_began_together_shift_nothing() {
    let mut engine = engine_with(MinoType::T, vec![MinoType::I]);
    control(&mut engine, ControlKind::RightDasStart, 100);
    control(&mut engine, ControlKind::LeftDasStart, 100);
    let reaction = engine.handle(Event::ArrTick, 105);
    assert_eq!(engine.game.player.x, 4);
    assert_eq!(reaction.arr_timer, Some(5));
}

#[test]
fn repeated_shift_onto_the_ground_starts_the_lock_delay() {
    let mut engine = grounded_engine();
    control(&mut engine, ControlKind::RightDasStart, 10);
    let reaction = engine.handle(Event::ArrTick, 15);
    assert_eq!(engine.game.player.x, 5);
    assert_eq!(engine.game.last_touch, Some(15));
    assert_eq!(reaction, Reaction { quit: false, lock_timer: Some(500), arr_timer: Some(5) });
}

#[test]
fn a_charge_without_a_repeat_timer_is_not_well_formed() {
    let mut engine = engine_with(MinoType::T, vec![MinoType::I]);
    assert!(engine.is_wf());
    control(&mut engine, ControlKind::LeftDasStart, 10);
    assert!(engine.is_wf());
    engine.arr_armed = false;
    assert!(!engine.is_wf());
    engine.game.das_charge_left = None;
    assert!(engine.is_wf());
}
