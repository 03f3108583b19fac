use tetris::shape::{
    Direction, MinoType, I_OFFSETS, JLSTZ_OFFSETS, KICKS, O_OFFSETS, TETRIMINO,
};

const ALL_DIRECTIONS: [Direction; 4] = [Direction::Z, Direction::R, Direction::D, Direction::L];

#[test]
fn direction_addition_counts_quarter_turns_modulo_four() {
    assert_eq!(Direction::Z + Direction::Z, Direction::Z);
    assert_eq!(Direction::Z + Direction::R, Direction::R);
    assert_eq!(Direction::R + Direction::R, Direction::D);
    assert_eq!(Direction::R + Direction::D, Direction::L);
    assert_eq!(Direction::R + Direction::L, Direction::Z);
    assert_eq!(Direction::D + Direction::D, Direction::Z);
    assert_eq!(Direction::L + Direction::L, Direction::D);
    assert_eq!(Direction::L + Direction::D, Direction::R);
}

#[test]
fn direction_addition_is_closed_and_commutes() {
    for a in ALL_DIRECTIONS {
        for b in ALL_DIRECTIONS {
            let sum = a + b;
            assert_eq!(sum.index(), (a.index() + b.index()) % 4);
            assert_eq!(sum, b + a);
        }
        assert_eq!(a + Direction::Z, a);
    }
}

#[test]
fn direction_index_is_the_row_of_the_offset_table() {
    assert_eq!(Direction::Z.index(), 0);
    assert_eq!(Direction::R.index(), 1);
    assert_eq!(Direction::D.index(), 2);
    assert_eq!(Direction::L.index(), 3);
}

#[test]
fn footprints_are_the_documented_four_cells() {
    assert_eq!(TETRIMINO, 4);
    assert_eq!(*MinoType::I.get_cells(), [(-1, 0), (0, 0), (1, 0), (2, 0)]);
    assert_eq!(*MinoType::J.get_cells(), [(-1, 1), (-1, 0), (0, 0), (1, 0)]);
    assert_eq!(*MinoType::L.get_cells(), [(-1, 0), (0, 0), (1, 0), (1, 1)]);
    assert_eq!(*MinoType::O.get_cells(), [(0, 1), (0, 0), (1, 0), (1, 1)]);
    assert_eq!(*MinoType::S.get_cells(), [(-1, 0), (0, 0), (0, 1), (1, 1)]);
    assert_eq!(*MinoType::T.get_cells(), [(-1, 0), (0, 0), (0, 1), (1, 0)]);
    assert_eq!(*MinoType::Z.get_cells(), [(-1, 1), (0, 1), (0, 0), (1, 0)]);
}

#[test]
fn every_footprint_has_a_cell_on_the_pivot() {
    for shape in [
        MinoType::I,
        MinoType::J,
        MinoType::L,
        MinoType::O,
        MinoType::S,
        MinoType::T,
        MinoType::Z,
    ] {
        assert!(shape.get_cells().contains(&(0, 0)));
    }
}

#[test]
fn offset_tables_are_chosen_by_shape_category() {
    assert_eq!(KICKS, 5);
    assert_eq!(MinoType::I.offset_table(), I_OFFSETS);
    assert_eq!(MinoType::O.offset_table(), O_OFFSETS);
    for shape in [MinoType::J, MinoType::L, MinoType::S, MinoType::T, MinoType::Z] {
        assert_eq!(shape.offset_table(), JLSTZ_OFFSETS);
    }
}

#[test]
fn offset_tables_hold_the_documented_vectors() {
    assert_eq!(JLSTZ_OFFSETS[1], [(0, 0), (1, 0), (1, -1), (0, 2), (1, 2)]);
    assert_eq!(JLSTZ_OFFSETS[3], [(0, 0), (-1, 0), (-1, -1), (0, 2), (-1, 2)]);
    assert_eq!(I_OFFSETS[0], [(0, 0), (-1, 0), (2, 0), (-1, 0), (2, 0)]);
    assert_eq!(I_OFFSETS[2], [(-1, 1), (1, 1), (-2, 1), (1, 0), (-2, 0)]);
    assert_eq!(O_OFFSETS[1][0], (0, -1));
    assert_eq!(O_OFFSETS[2][0], (-1, -1));
    assert_eq!(O_OFFSETS[3][0], (-1, 0));
}

#[test]
fn shapes_are_numbered_in_their_listed_order() {
    let shapes = [
        MinoType::I,
        MinoType::J,
        MinoType::L,
        MinoType::O,
        MinoType::S,
        MinoType::T,
        MinoType::Z,
    ];
    for (n, shape) in shapes.iter().enumerate() {
        assert_eq!(shape.index(), n);
    }
}
