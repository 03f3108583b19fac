use tetris::bag::{get_bag, Bag, BAG_SIZE};
use tetris::shape::MinoType;

const SORTED: [MinoType; 7] = [
    MinoType::I,
    MinoType::J,
    MinoType::L,
    MinoType::O,
    MinoType::S,
    MinoType::T,
    MinoType::Z,
];

fn count(shapes: &[MinoType], shape: MinoType) -> usize {
    shapes.iter().filter(|s| **s == shape).count()
}

fn assert_one_of_each(shapes: &[MinoType]) {
    assert_eq!(shapes.len(), 7);
    for shape in SORTED {
        assert_eq!(count(shapes, shape), 1);
    }
}

#[test]
fn a_fresh_bag_holds_each_shape_once() {
    assert_eq!(BAG_SIZE, 7);
    for _ in 0..50 {
        assert_one_of_each(&get_bag());
    }
    assert_one_of_each(&Bag::new().list);
}

#[test]
fn fresh_bags_do_not_all_come_in_the_listed_order() {
    let mut shuffled = false;
    for _ in 0..64 {
        if get_bag() != SORTED.to_vec() {
            shuffled = true;
        }
    }
    assert!(shuffled);
}

#[test]
fn fresh_bags_come_in_more_than_one_order() {
    let first = get_bag();
    let mut other = false;
    for _ in 0..64 {
        if get_bag() != first {
            other = true;
        }
    }
    assert!(other);
}

#[test]
fn next_deals_from_the_end_of_the_list() {
    let mut bag = Bag { list: vec![MinoType::T, MinoType::O, MinoType::I] };
    assert_eq!(bag.next(), MinoType::I);
    assert_eq!(bag.list, vec![MinoType::T, MinoType::O]);
    assert_eq!(bag.next(), MinoType::O);
    assert_eq!(bag.next(), MinoType::T);
    assert!(bag.list.is_empty());
}

#[test]
fn next_on_a_used_up_list_refills_it_and_deals_one() {
    let mut bag = Bag { list: Vec::new() };
    let shape = bag.next();
    assert_eq!(bag.list.len(), 6);
    assert_eq!(count(&bag.list, shape), 0);
    let mut stock = bag.list.clone();
    stock.push(shape);
    assert_one_of_each(&stock);
}

#[test]
fn seven_draws_from_a_refill_deal_each_shape_once() {
    let mut bag = Bag { list: Vec::new() };
    for _ in 0..30 {
        let mut drawn = Vec::new();
        for _ in 0..7 {
            drawn.push(bag.next());
        }
        assert_one_of_each(&drawn);
        assert!(bag.list.is_empty());
    }
}

#[test]
fn draws_from_a_new_bag_are_fair_in_every_window_of_seven() {
    let mut bag = Bag::new();
    let mut drawn = Vec::new();
    for _ in 0..21 {
        drawn.push(bag.next());
    }
    assert_one_of_each(&drawn[0..7]);
    assert_one_of_each(&drawn[7..14]);
    assert_one_of_each(&drawn[14..21]);
}

#[test]
fn upcoming_queue_is_the_list_read_from_its_end() {
    let mut bag = Bag::new();
    let mut upcoming = bag.list.clone();
    upcoming.reverse();
    let mut drawn = Vec::new();
    for _ in 0..7 {
        drawn.push(bag.next());
    }
    assert_eq!(drawn, upcoming);
}

#[test]
fn lists_without_repeats_are_well_formed_bags() {
    assert!(Bag { list: Vec::new() }.is_wf());
    assert!(Bag::new().is_wf());
    assert!(Bag { list: SORTED.to_vec() }.is_wf());
    assert!(Bag { list: vec![MinoType::Z, MinoType::I] }.is_wf());
    assert!(!Bag { list: vec![MinoType::Z, MinoType::I, MinoType::Z] }.is_wf());
    assert!(!Bag { list: vec![MinoType::O, MinoType::O] }.is_wf());
}

#[test]
fn many_draws_are_fair_group_by_group_and_leave_a_distinct_rest() {
    let mut bag = Bag { list: Vec::new() };
    let mut drawn = Vec::new();
    for _ in 0..(7 * 12 + 5) {
        drawn.push(bag.next());
    }
    for group in 0..12 {
        assert_one_of_each(&drawn[7 * group..7 * group + 7]);
    }
    for shape in SORTED {
        assert_eq!(count(&drawn[..84], shape), 12);
        assert!(count(&drawn[84..], shape) <= 1);
    }
    assert_eq!(bag.list.len(), 2);
}

#[test]
fn no_shape_comes_three_times_in_eight_draws() {
    let mut bag = Bag { list: Vec::new() };
    let mut drawn = Vec::new();
    for _ in 0..200 {
        drawn.push(bag.next());
    }
    for from in 0..(drawn.len() - 8) {
        for shape in SORTED {
            assert!(count(&drawn[from..from + 8], shape) <= 2);
        }
    }
}
