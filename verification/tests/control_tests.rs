use tetris::control::{
    das_expired, das_timeout, stop_das, ControlKind, DasScan, DasTimer, Key, KeyAction, KeyKind,
};

fn press(scan: &mut DasScan, c: char) -> KeyAction {
    scan.handle_key(KeyKind::Press, Key::Char(c))
}

fn release(scan: &mut DasScan, c: char) -> KeyAction {
    scan.handle_key(KeyKind::Release, Key::Char(c))
}

fn timer(control: ControlKind, generation: u64) -> Option<DasTimer> {
    Some(DasTimer { control, generation })
}

#[test]
fn new_scan_holds_no_key_and_counts_from_zero() {
    assert_eq!(
        DasScan::new(),
        DasScan { left: false, right: false, left_generation: 0, right_generation: 0 }
    );
}

#[test]
fn keys_map_to_their_controls() {
    let table = [
        ('q', ControlKind::Quit),
        ('j', ControlKind::SoftDrop),
        (' ', ControlKind::HardDrop),
        ('y', ControlKind::Hold),
        ('a', ControlKind::RotateCC),
        ('s', ControlKind::Rotate180),
        ('d', ControlKind::Rotate),
    ];
    for (key, control) in table {
        let mut scan = DasScan::new();
        let action = press(&mut scan, key);
        assert_eq!(action, KeyAction { control: Some(control), timer: None });
        assert_eq!(scan, DasScan::new());
    }
}

#[test]
fn unknown_keys_and_other_kinds_do_nothing() {
    let mut scan = DasScan::new();
    let nothing = KeyAction { control: None, timer: None };
    assert_eq!(press(&mut scan, 'x'), nothing);
    assert_eq!(release(&mut scan, 'q'), nothing);
    assert_eq!(release(&mut scan, 'x'), nothing);
    assert_eq!(scan.handle_key(KeyKind::Repeat, Key::Char('h')), nothing);
    assert_eq!(scan.handle_key(KeyKind::Press, Key::Other), nothing);
    assert_eq!(scan.handle_key(KeyKind::Release, Key::Other), nothing);
    assert_eq!(scan, DasScan::new());
}

#[test]
fn pressing_a_direction_sends_one_shift_and_starts_a_timer() {
    let mut scan = DasScan::new();
    assert_eq!(
        press(&mut scan, 'h'),
        KeyAction { control: Some(ControlKind::Left), timer: timer(ControlKind::LeftDasStart, 0) }
    );
    assert!(scan.left && !scan.right);
    assert_eq!(
        press(&mut scan, 'l'),
        KeyAction {
            control: Some(ControlKind::Right),
            timer: timer(ControlKind::RightDasStart, 0)
        }
    );
    assert!(scan.left && scan.right);
    assert_eq!((scan.left_generation, scan.right_generation), (0, 0));
}

#[test]
fn pressing_a_held_direction_starts_no_second_timer() {
    let mut scan = DasScan::new();
    press(&mut scan, 'h');
    assert_eq!(
        press(&mut scan, 'h'),
        KeyAction { control: Some(ControlKind::Left), timer: None }
    );
    assert!(scan.left);
}

#[test]
fn releasing_a_direction_ends_its_charge_and_advances_its_generation() {
    let mut scan = DasScan { left: true, right: true, left_generation: 4, right_generation: 9 };
    assert_eq!(
        release(&mut scan, 'h'),
        KeyAction { control: Some(ControlKind::LeftDasEnd), timer: None }
    );
    assert_eq!(
        scan,
        DasScan { left: false, right: true, left_generation: 5, right_generation: 9 }
    );
    assert_eq!(
        release(&mut scan, 'l'),
        KeyAction { control: Some(ControlKind::RightDasEnd), timer: None }
    );
    assert_eq!(
        scan,
        DasScan { left: false, right: false, left_generation: 5, right_generation: 10 }
    );
}

#[test]
fn das_timeout_raises_the_flag_once() {
    let mut flag = false;
    assert_eq!(
        das_timeout(&mut flag, 3, ControlKind::LeftDasStart),
        timer(ControlKind::LeftDasStart, 3)
    );
    assert!(flag);
    assert_eq!(das_timeout(&mut flag, 3, ControlKind::LeftDasStart), None);
    assert!(flag);
}

#[test]
fn stop_das_lowers_the_flag_and_advances_the_generation() {
    let mut flag = true;
    let mut generation = 7;
    stop_das(&mut flag, &mut generation);
    assert!(!flag);
    assert_eq!(generation, 8);
    stop_das(&mut flag, &mut generation);
    assert!(!flag);
    assert_eq!(generation, 9);
}

#[test]
fn generation_starts_again_after_the_largest_number() {
    let mut flag = true;
    let mut generation = u64::MAX;
    stop_das(&mut flag, &mut generation);
    assert_eq!(generation, 0);
}

#[test]
fn expired_timer_delivers_only_while_flag_and_generation_stand() {
    let t = DasTimer { control: ControlKind::RightDasStart, generation: 5 };
    assert_eq!(das_expired(true, 5, t), Some(ControlKind::RightDasStart));
    assert_eq!(das_expired(false, 5, t), None);
    assert_eq!(das_expired(true, 6, t), None);
    assert_eq!(das_expired(true, 4, t), None);
    assert_eq!(das_expired(false, 6, t), None);
}

#[test]
fn expired_looks_at_the_key_of_the_timer() {
    let scan = DasScan { left: true, right: false, left_generation: 2, right_generation: 2 };
    let left = DasTimer { control: ControlKind::LeftDasStart, generation: 2 };
    let right = DasTimer { control: ControlKind::RightDasStart, generation: 2 };
    assert_eq!(scan.expired(left), Some(ControlKind::LeftDasStart));
    assert_eq!(scan.expired(right), None);
}

#[test]
fn a_tap_sends_one_shift_and_no_charge() {
    let mut scan = DasScan::new();
    let mut sent = Vec::new();
    let down = press(&mut scan, 'h');
    sent.extend(down.control);
    let up = release(&mut scan, 'h');
    sent.extend(up.control);
    // the timer started by the press runs out after the release
    sent.extend(scan.expired(down.timer.unwrap()));
    assert_eq!(sent, vec![ControlKind::Left, ControlKind::LeftDasEnd]);
}

#[test]
fn a_hold_sends_the_start_of_the_charge_when_the_timer_runs_out() {
    let mut scan = DasScan::new();
    let mut sent = Vec::new();
    let down = press(&mut scan, 'l');
    sent.extend(down.control);
    sent.extend(scan.expired(down.timer.unwrap()));
    let up = release(&mut scan, 'l');
    sent.extend(up.control);
    assert_eq!(
        sent,
        vec![ControlKind::Right, ControlKind::RightDasStart, ControlKind::RightDasEnd]
    );
}

#[test]
fn a_tap_followed_by_a_hold_starts_the_charge_once() {
    for key in ['h', 'l'] {
        let mut scan = DasScan::new();
        let first = press(&mut scan, key).timer.unwrap();
        release(&mut scan, key);
        let second = press(&mut scan, key).timer.unwrap();
        assert!(first != second);
        // the first timer runs out while the key is down again: it is stale
        assert_eq!(scan.expired(first), None);
        // the second runs out a full delay after the press that is still held
        let start = if key == 'h' {
            ControlKind::LeftDasStart
        } else {
            ControlKind::RightDasStart
        };
        assert_eq!(scan.expired(second), Some(start));
        // while the key stays down no further timer is started
        assert_eq!(press(&mut scan, key).timer, None);
    }
}

#[test]
fn timers_of_many_taps_are_all_stale_but_the_last() {
    let mut scan = DasScan::new();
    let mut timers = Vec::new();
    for _ in 0..5 {
        timers.push(press(&mut scan, 'h').timer.unwrap());
        release(&mut scan, 'h');
    }
    let last = press(&mut scan, 'h').timer.unwrap();
    for stale in timers {
        assert_eq!(scan.expired(stale), None);
    }
    assert_eq!(scan.expired(last), Some(ControlKind::LeftDasStart));
}
