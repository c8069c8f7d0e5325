use ricochet_robot::board::{Board, EditableBoard, Error};
use ricochet_robot::individual_cells::BoardByIndividualCells;
use ricochet_robot::geometry::{Dimensions, Hit, Pos, Way};
use ricochet_robot::moves::MovePossibility;
use ricochet_robot::wall::Wall;

fn board(rows: u32, columns: u32) -> BoardByIndividualCells {
    let mut b = BoardByIndividualCells::new();
    b.reset(Dimensions { rows, columns }).unwrap();
    b
}

fn mp(up: bool, down: bool, left: bool, right: bool) -> MovePossibility {
    MovePossibility { up, down, left, right }
}

fn wall(x: u32, y: u32, side: Way) -> Wall {
    Wall { pos: Pos::new(x, y), side }
}

#[test]
fn new_board_is_empty() {
    let b = BoardByIndividualCells::new();
    assert_eq!(b.dim(), Dimensions { rows: 0, columns: 0 });
    assert_eq!(b.moves_from(&Pos::new(0, 0)), Err(Error::PositionNotOnBoard));
}

#[test]
fn reset_accepts_two_by_two_and_larger() {
    let mut b = BoardByIndividualCells::new();
    assert_eq!(b.reset(Dimensions { rows: 2, columns: 2 }), Ok(()));
    assert_eq!(b.dim(), Dimensions { rows: 2, columns: 2 });
    assert_eq!(b.reset(Dimensions { rows: 16, columns: 9 }), Ok(()));
    assert_eq!(b.dim(), Dimensions { rows: 16, columns: 9 });
}

#[test]
fn reset_rejects_small_dimensions_and_keeps_state() {
    let mut b = board(4, 4);
    b.put_wall(&wall(1, 1, Way::Right)).unwrap();
    for (rows, columns) in [(1, 4), (4, 1), (0, 0), (1, 1), (0, 7)] {
        assert_eq!(
            b.reset(Dimensions { rows, columns }),
            Err(Error::DimensionsNotSuitableForBoard)
        );
    }
    assert_eq!(b.dim(), Dimensions { rows: 4, columns: 4 });
    assert_eq!(b.moves_from(&Pos::new(1, 1)), Ok(mp(true, true, true, false)));
    assert_eq!(b.moves_from(&Pos::new(2, 1)), Ok(mp(true, true, false, true)));
}

#[test]
fn reset_clears_walls() {
    let mut b = board(4, 4);
    b.put_wall(&wall(1, 1, Way::Down)).unwrap();
    b.reset(Dimensions { rows: 5, columns: 3 }).unwrap();
    assert_eq!(b.dim(), Dimensions { rows: 5, columns: 3 });
    assert_eq!(b.moves_from(&Pos::new(1, 1)), Ok(mp(true, true, true, true)));
    assert_eq!(b.moves_from(&Pos::new(1, 2)), Ok(mp(true, true, true, true)));
}

#[test]
fn fresh_board_moves_are_edge_clipped() {
    let b = board(3, 4);
    for y in 0..3u32 {
        for x in 0..4u32 {
            let expected = mp(y > 0, y + 1 < 3, x > 0, x + 1 < 4);
            assert_eq!(b.moves_from(&Pos::new(x, y)), Ok(expected));
        }
    }
    assert_eq!(b.moves_from(&Pos::new(0, 0)), Ok(mp(false, true, false, true)));
    assert_eq!(b.moves_from(&Pos::new(3, 2)), Ok(mp(true, false, true, false)));
}

#[test]
fn moves_from_off_board_fails() {
    let b = board(3, 4);
    assert_eq!(b.moves_from(&Pos::new(4, 0)), Err(Error::PositionNotOnBoard));
    assert_eq!(b.moves_from(&Pos::new(0, 3)), Err(Error::PositionNotOnBoard));
    assert_eq!(b.moves_from(&Pos::new(u32::MAX, u32::MAX)), Err(Error::PositionNotOnBoard));
}

#[test]
fn put_wall_up_closes_both_sides() {
    let mut b = board(4, 4);
    assert_eq!(b.put_wall(&wall(1, 2, Way::Up)), Ok(()));
    assert!(!b.moves_from(&Pos::new(1, 2)).unwrap().up);
    assert!(!b.moves_from(&Pos::new(1, 1)).unwrap().down);
    assert_eq!(b.moves_from(&Pos::new(1, 2)), Ok(mp(false, true, true, true)));
    assert_eq!(b.moves_from(&Pos::new(1, 1)), Ok(mp(true, false, true, true)));
}

#[test]
fn put_wall_down_left_right_close_both_sides() {
    let mut b = board(4, 4);
    b.put_wall(&wall(2, 1, Way::Down)).unwrap();
    assert!(!b.moves_from(&Pos::new(2, 1)).unwrap().down);
    assert!(!b.moves_from(&Pos::new(2, 2)).unwrap().up);
    b.put_wall(&wall(2, 1, Way::Left)).unwrap();
    assert!(!b.moves_from(&Pos::new(2, 1)).unwrap().left);
    assert!(!b.moves_from(&Pos::new(1, 1)).unwrap().right);
    b.put_wall(&wall(0, 3, Way::Right)).unwrap();
    assert!(!b.moves_from(&Pos::new(0, 3)).unwrap().right);
    assert!(!b.moves_from(&Pos::new(1, 3)).unwrap().left);
    assert_eq!(b.moves_from(&Pos::new(2, 1)), Ok(mp(true, false, false, true)));
}

#[test]
fn put_wall_at_boundary_touches_one_cell() {
    let mut b = board(3, 3);
    assert_eq!(b.put_wall(&wall(1, 0, Way::Up)), Ok(()));
    assert_eq!(b.put_wall(&wall(2, 2, Way::Right)), Ok(()));
    for y in 0..3u32 {
        for x in 0..3u32 {
            let expected = mp(y > 0, y + 1 < 3, x > 0, x + 1 < 3);
            assert_eq!(b.moves_from(&Pos::new(x, y)), Ok(expected));
        }
    }
}

#[test]
fn put_wall_off_board_fails() {
    let mut b = board(3, 3);
    assert_eq!(b.put_wall(&wall(3, 0, Way::Left)), Err(Error::PositionNotOnBoard));
    assert_eq!(b.moves_from(&Pos::new(2, 0)), Ok(mp(false, true, true, false)));
}

#[test]
fn put_wall_twice_is_same_as_once() {
    let mut once = board(4, 4);
    let mut twice = board(4, 4);
    let w = wall(1, 1, Way::Right);
    once.put_wall(&w).unwrap();
    twice.put_wall(&w).unwrap();
    twice.put_wall(&w).unwrap();
    for y in 0..4u32 {
        for x in 0..4u32 {
            let p = Pos::new(x, y);
            assert_eq!(once.moves_from(&p), twice.moves_from(&p));
            for way in [Way::Up, Way::Down, Way::Left, Way::Right] {
                assert_eq!(once.hit_from(&p, way), twice.hit_from(&p, way));
            }
        }
    }
}

#[test]
fn hit_from_on_empty_board_reaches_edge() {
    let b = board(4, 4);
    assert_eq!(
        b.hit_from(&Pos::new(0, 0), Way::Right),
        Ok(Hit { pos: Pos::new(3, 0), distance: 3 })
    );
}

#[test]
fn hit_from_stops_at_wall() {
    let mut b = board(4, 4);
    b.put_wall(&wall(2, 0, Way::Right)).unwrap();
    assert_eq!(
        b.hit_from(&Pos::new(0, 0), Way::Right),
        Ok(Hit { pos: Pos::new(2, 0), distance: 2 })
    );
}

#[test]
fn hit_from_each_direction() {
    let b = board(5, 6);
    let p = Pos::new(2, 3);
    assert_eq!(b.hit_from(&p, Way::Up), Ok(Hit { pos: Pos::new(2, 0), distance: 3 }));
    assert_eq!(b.hit_from(&p, Way::Down), Ok(Hit { pos: Pos::new(2, 4), distance: 1 }));
    assert_eq!(b.hit_from(&p, Way::Left), Ok(Hit { pos: Pos::new(0, 3), distance: 2 }));
    assert_eq!(b.hit_from(&p, Way::Right), Ok(Hit { pos: Pos::new(5, 3), distance: 3 }));
}

#[test]
fn hit_from_uses_the_reciprocal_side() {
    let mut b = board(5, 5);
    // A wall on the bottom of (1, 1) stops a robot moving up from (1, 4) at (1, 2).
    b.put_wall(&wall(1, 1, Way::Down)).unwrap();
    assert_eq!(
        b.hit_from(&Pos::new(1, 4), Way::Up),
        Ok(Hit { pos: Pos::new(1, 2), distance: 2 })
    );
    assert_eq!(
        b.hit_from(&Pos::new(1, 0), Way::Down),
        Ok(Hit { pos: Pos::new(1, 1), distance: 1 })
    );
}

#[test]
fn hit_from_nearest_of_several_walls() {
    let mut b = board(8, 8);
    b.put_wall(&wall(6, 4, Way::Left)).unwrap();
    b.put_wall(&wall(3, 4, Way::Left)).unwrap();
    assert_eq!(
        b.hit_from(&Pos::new(7, 4), Way::Left),
        Ok(Hit { pos: Pos::new(6, 4), distance: 1 })
    );
    assert_eq!(
        b.hit_from(&Pos::new(5, 4), Way::Left),
        Ok(Hit { pos: Pos::new(3, 4), distance: 2 })
    );
}

#[test]
fn hit_from_wall_at_start_stays() {
    let mut b = board(4, 4);
    b.put_wall(&wall(1, 1, Way::Right)).unwrap();
    assert_eq!(
        b.hit_from(&Pos::new(1, 1), Way::Right),
        Ok(Hit { pos: Pos::new(1, 1), distance: 0 })
    );
    assert_eq!(
        b.hit_from(&Pos::new(3, 2), Way::Right),
        Ok(Hit { pos: Pos::new(3, 2), distance: 0 })
    );
}

#[test]
fn hit_from_off_board_fails() {
    let b = board(4, 4);
    assert_eq!(b.hit_from(&Pos::new(4, 1), Way::Left), Err(Error::PositionNotOnBoard));
}

#[test]
fn hit_from_stays_on_board() {
    let mut b = board(6, 5);
    b.put_wall(&wall(2, 2, Way::Up)).unwrap();
    b.put_wall(&wall(3, 4, Way::Left)).unwrap();
    b.put_wall(&wall(0, 5, Way::Right)).unwrap();
    for y in 0..6u32 {
        for x in 0..5u32 {
            for way in [Way::Up, Way::Down, Way::Left, Way::Right] {
                let h = b.hit_from(&Pos::new(x, y), way).unwrap();
                assert!(h.pos.x < 5 && h.pos.y < 6);
                let back = Pos::new(x, y).distance_to(&h.pos, way);
                assert_eq!(back, h.distance as i64);
            }
        }
    }
}

#[test]
fn is_start_pos_is_always_true() {
    let b = board(3, 3);
    assert_eq!(b.is_start_pos(&Pos::new(1, 1)), Ok(true));
    assert_eq!(b.is_start_pos(&Pos::new(10, 10)), Ok(true));
}
