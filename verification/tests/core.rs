use jetris::rotation::Rotation;
use jetris::shape::sample_cell;
use jetris::tile_map::TileMap;
use jetris::block::Block;

fn snapshot(tm: &TileMap) -> Vec<i16> {
    let mut cells = Vec::new();
    for x in 0..12i16 {
        for y in 0..30i16 {
            cells.push(tm.get(x, y));
        }
    }
    cells
}

#[test]
fn rotation_next_cycles() {
    assert_eq!(Rotation::Cw0.next(), Rotation::Cw90);
    assert_eq!(Rotation::Cw90.next(), Rotation::Cw180);
    assert_eq!(Rotation::Cw180.next(), Rotation::Cw270);
    assert_eq!(Rotation::Cw270.next(), Rotation::Cw0);
}

#[test]
fn rotation_closure_all_shapes() {
    for t in 0u8..7 {
        for x in 0usize..5 {
            for y in 0usize..5 {
                let r0 = Rotation::Cw0;
                let r4 = r0.next().next().next().next();
                assert_eq!(sample_cell(t, r4, x, y), sample_cell(t, r0, x, y));
                let r1 = Rotation::Cw90;
                let r5 = r1.next().next().next().next();
                assert_eq!(sample_cell(t, r5, x, y), sample_cell(t, r1, x, y));
            }
        }
    }
}

#[test]
fn shape_i_vertical_bar() {
    let mut filled = 0;
    for x in 0usize..5 {
        for y in 0usize..5 {
            if sample_cell(1, Rotation::Cw0, x, y) {
                filled += 1;
                assert_eq!(x, 2);
                assert!((1..=4).contains(&y));
            }
        }
    }
    assert_eq!(filled, 4);
}

#[test]
fn shape_i_rotated_horizontal() {
    for x in 0usize..5 {
        for y in 0usize..5 {
            let expect = y == 2 && x <= 3;
            assert_eq!(sample_cell(1, Rotation::Cw90, x, y), expect);
        }
    }
}

#[test]
fn grid_new_get_set() {
    let mut tm = TileMap::new(12, 30);
    assert_eq!(tm.get(5, 5), 0);
    tm.set(5, 5, 3);
    assert_eq!(tm.get(5, 5), 3);
    assert_eq!(tm.get(5, 6), 0);
}

#[test]
fn grid_out_of_bounds_reads_wall() {
    let tm = TileMap::new(12, 30);
    assert_eq!(tm.get(-1, 0), 8);
    assert_eq!(tm.get(12, 0), 8);
    assert_eq!(tm.get(0, 30), 8);
    assert_eq!(tm.get(0, -1), 8);
}

#[test]
fn row_full_detection() {
    let mut tm = TileMap::new(12, 30);
    for x in 1..=10i16 {
        tm.set(x, 10, 2);
    }
    assert!(tm.is_row_full(10));
    tm.set(4, 10, 0);
    assert!(!tm.is_row_full(10));
}

#[test]
fn clear_row_shifts_rows_down() {
    let mut tm = TileMap::new(12, 30);
    tm.set(3, 5, 4);
    tm.set(2, 9, 6);
    tm.clear_row_and_shift(9);
    assert_eq!(tm.get(2, 9), 0);
    assert_eq!(tm.get(3, 5), 0);
    assert_eq!(tm.get(3, 6), 4);
}

#[test]
fn clear_full_rows_single_row() {
    let mut tm = TileMap::new(12, 30);
    for x in 1..=10i16 {
        if x != 7 {
            tm.set(x, 28, 5);
        }
    }
    tm.set(4, 20, 3);
    assert_eq!(tm.clear_full_rows(), 0);
    tm.set(7, 28, 5);
    assert_eq!(tm.clear_full_rows(), 1);
    for x in 1..=10i16 {
        assert_eq!(tm.get(x, 28), 0);
    }
    assert_eq!(tm.get(4, 20), 0);
    assert_eq!(tm.get(4, 21), 3);
}

#[test]
fn clear_full_rows_cascade_non_adjacent() {
    let mut tm = TileMap::new(12, 30);
    for x in 1..=10i16 {
        tm.set(x, 20, 2);
        tm.set(x, 25, 6);
    }
    tm.set(5, 10, 2);
    tm.set(5, 22, 6);
    tm.set(5, 27, 4);
    assert_eq!(tm.clear_full_rows(), 2);
    // A cell shifts down by the number of full rows that lay below it.
    assert_eq!(tm.get(5, 10), 0);
    assert_eq!(tm.get(5, 12), 2);
    assert_eq!(tm.get(5, 22), 0);
    assert_eq!(tm.get(5, 23), 6);
    assert_eq!(tm.get(5, 27), 4);
}

#[test]
fn clear_full_rows_adjacent_pair() {
    let mut tm = TileMap::new(12, 30);
    for x in 1..=10i16 {
        tm.set(x, 27, 2);
        tm.set(x, 28, 3);
    }
    tm.set(8, 26, 7);
    assert_eq!(tm.clear_full_rows(), 2);
    assert_eq!(tm.get(8, 26), 0);
    assert_eq!(tm.get(8, 28), 7);
}

#[test]
fn reset_interior_keeps_borders() {
    let mut tm = TileMap::new(12, 30);
    for y in 0..30i16 {
        tm.set(0, y, 8);
        tm.set(11, y, 8);
    }
    for x in 0..12i16 {
        tm.set(x, 29, 8);
    }
    tm.set(5, 5, 4);
    tm.reset_interior();
    assert_eq!(tm.get(5, 5), 0);
    assert_eq!(tm.get(0, 7), 8);
    assert_eq!(tm.get(11, 7), 8);
    assert_eq!(tm.get(5, 29), 8);
}

#[test]
fn stamp_writes_tile_ids() {
    let mut tm = TileMap::new(12, 30);
    let b = Block::new(4, 10, 2);
    b.stamp(&mut tm);
    // T template: row 2 at local x 1..=3, plus local (2, 3).
    assert_eq!(tm.get(5, 12), 3);
    assert_eq!(tm.get(6, 12), 3);
    assert_eq!(tm.get(7, 12), 3);
    assert_eq!(tm.get(6, 13), 3);
    assert_eq!(tm.get(6, 11), 0);
}

#[test]
fn collision_rollback_sideways() {
    let mut tm = TileMap::new(12, 30);
    tm.set(7, 12, 5);
    let mut b = Block::new(4, 10, 1);
    b.try_move(1, 0, &tm);
    assert_eq!((b.pos_x, b.pos_y), (4, 10));
    assert!(!b.is_down());
    // The same move with nothing in the way goes through.
    tm.set(7, 12, 0);
    b.try_move(1, 0, &tm);
    assert_eq!((b.pos_x, b.pos_y), (5, 10));
}

#[test]
fn rotation_rollback_on_overlap() {
    let mut tm = TileMap::new(12, 30);
    tm.set(5, 12, 4);
    let mut b = Block::new(4, 10, 1);
    // Horizontal footprint would cover (5, 12): rotation must roll back.
    b.try_rotate(&tm);
    assert_eq!(b.rotation, Rotation::Cw0);
    assert_eq!(b.previous_rotation, Rotation::Cw0);
    tm.set(5, 12, 0);
    b.try_rotate(&tm);
    assert_eq!(b.rotation, Rotation::Cw90);
}

#[test]
fn rotate_blocked_flush_against_left_wall() {
    let mut tm = TileMap::new(12, 30);
    for y in 0..30i16 {
        tm.set(0, y, 8);
        tm.set(11, y, 8);
    }
    // Vertical I bar in the leftmost interior column.
    let mut b = Block::new(-1, 10, 1);
    b.try_rotate(&tm);
    assert_eq!(b.rotation, Rotation::Cw0);
}

#[test]
fn landing_monotonic_once_down() {
    let mut tm = TileMap::new(12, 30);
    for x in 0..12i16 {
        tm.set(x, 29, 8);
    }
    let mut b = Block::new(4, 24, 1);
    b.try_move(0, 1, &tm);
    assert!(b.is_down());
    assert_eq!(b.pos_y, 24);
    b.try_move(0, 1, &tm);
    assert!(b.is_down());
    b.try_move(-1, 0, &tm);
    assert!(b.is_down());
    b.try_rotate(&tm);
    assert!(b.is_down());
}

#[test]
fn move_down_stops_at_lowest_row() {
    let tm = TileMap::new(12, 30);
    let mut b = Block::new(4, 28, 1);
    b.move_down(&tm);
    assert_eq!(b.pos_y, 29);
    b.move_down(&tm);
    assert_eq!(b.pos_y, 29);
}

#[test]
fn erase_twice_is_idempotent() {
    let mut tm = TileMap::new(12, 30);
    tm.set(9, 9, 6);
    let b = Block::new(4, 10, 3);
    b.stamp(&mut tm);
    b.erase(&mut tm);
    let after_first = snapshot(&tm);
    b.erase(&mut tm);
    let after_second = snapshot(&tm);
    assert_eq!(after_first, after_second);
    assert_eq!(tm.get(9, 9), 6);
}

#[test]
fn soft_drop_until_landed_on_empty_field() {
    let session = jetris::session::GameState::new(0);
    let mut tm = session.tile_map;
    let mut b = Block::new(4, 2, 1);
    let mut steps = 0;
    while !b.is_down() {
        b.erase(&mut tm);
        b.try_move(0, 1, &tm);
        b.stamp(&mut tm);
        b.commit_position();
        steps += 1;
        assert!(steps < 100);
    }
    // The bar rests on the bottom wall row: lowest cell in row 28.
    assert_eq!((b.pos_x, b.pos_y), (4, 24));
    for x in 0..12i16 {
        for y in 0..30i16 {
            let expect = if x == 0 || x == 11 || y == 29 {
                8
            } else if x == 6 && (25..=28).contains(&y) {
                2
            } else {
                0
            };
            assert_eq!(tm.get(x, y), expect, "cell ({x}, {y})");
        }
    }
}
