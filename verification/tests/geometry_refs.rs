use thedes::domain::thede::{DeallocError, Registry};
use thedes::ratio::Ratio;
use thedes::domain::time::{CircadianCycleStep, Season};
use thedes::geometry::axis::{Direction, DirectionVec};
use thedes::geometry::collections::map::CoordMap;
use thedes::geometry::coords::CoordPair;
use thedes::geometry::rect::{HorzAreaError, Rect};

#[test]
fn pair_arithmetic_by_reference() {
    let (a, b) = (CoordPair { y: 10u8, x: 200u8 }, CoordPair { y: 5u8, x: 100u8 });
    assert_eq!(a.as_ref().checked_add_by_ref(b.as_ref()), None);
    assert_eq!(a.as_ref().checked_sub_by_ref(b.as_ref()), Some(CoordPair { y: 5, x: 100 }));
    assert_eq!(b.as_ref().checked_sub_by_ref_from(&150), Some(CoordPair { y: 145, x: 50 }));
    assert_eq!(a.as_ref().checked_sub_by_ref_except(&20), None);
    assert_eq!(b.as_ref().checked_mul_by_ref_scalar(&2), Some(CoordPair { y: 10, x: 200 }));
    assert_eq!(a.as_ref().saturating_add_by_ref(b.as_ref()), CoordPair { y: 15, x: 255 });
    assert_eq!(b.as_ref().saturating_sub_by_ref_from(&50), CoordPair { y: 0, x: 50 });
    assert_eq!(b.saturating_sub_from(&50), CoordPair { y: 0, x: 50 });
    assert_eq!(a.as_ref().checked_div_by_ref(b.as_ref()), Some(CoordPair { y: 2, x: 2 }));
    assert_eq!(b.as_ref().checked_div_by_ref_on(&200), Some(CoordPair { y: 40, x: 2 }));
    assert_eq!(b.checked_div_on(&200), Some(CoordPair { y: 40, x: 2 }));
    assert_eq!(b.checked_rem_on(&7), Some(CoordPair { y: 2, x: 7 }));
    assert_eq!(CoordPair { y: 0u8, x: 3u8 }.checked_rem_on(&7), None);
    assert_eq!(a.as_ref().checked_rem_by_ref_by(&7), Some(CoordPair { y: 3, x: 4 }));
    assert_eq!(a.as_ref().div_ceil_by_ref(b.as_ref()), CoordPair { y: 2, x: 2 });
    assert_eq!(a.as_ref().div_ceil_by_ref_by(&3), CoordPair { y: 4, x: 67 });
    assert_eq!(b.as_ref().div_floor_by_ref_on(&99), CoordPair { y: 19, x: 0 });
}

#[test]
fn moves_by_reference() {
    let p = CoordPair { y: 0u16, x: 7u16 };
    assert_eq!(p.as_ref().checked_move_unit_by_ref(Direction::Up), None);
    assert_eq!(p.as_ref().saturating_move_unit_by_ref(Direction::Up), CoordPair { y: 1, x: 7 });
    assert_eq!(p.as_ref().checked_move_by_ref_by(&3, Direction::Left), Some(CoordPair { y: 0, x: 4 }));
    assert_eq!(Direction::Right.checked_move_by_ref_by(&3, p.as_ref()), Some(CoordPair { y: 0, x: 10 }));
    assert_eq!(Direction::Left.saturating_move_by_ref_by(&30, p.as_ref()), CoordPair { y: 0, x: 37 });
    assert_eq!(Direction::Right.saturating_move_by_ref_by(&30, p.as_ref()), CoordPair { y: 0, x: 0 });
    let v = DirectionVec { direction: Direction::Down, magnitude: 4u16 };
    assert_eq!(v.by_ref().checked_move_by_ref(p.as_ref()), Some(CoordPair { y: 4, x: 7 }));
    let back = DirectionVec { direction: Direction::Up, magnitude: 9u16 };
    assert_eq!(back.by_ref().saturating_move_by_ref(p.as_ref()), CoordPair { y: 9, x: 7 });
}

#[test]
fn rectangles_by_reference() {
    let rect = Rect { top_left: CoordPair { y: 250u8, x: 1u8 }, size: CoordPair { y: 30u8, x: 20u8 } };
    assert_eq!(rect.as_ref().checked_bottom_right_by_ref(), None);
    assert_eq!(rect.as_ref().checked_total_area_by_ref(), None);
    let small = Rect { top_left: CoordPair { y: 2u8, x: 1u8 }, size: CoordPair { y: 10u8, x: 20u8 } };
    assert_eq!(small.as_ref().checked_bottom_right_by_ref(), Some(CoordPair { y: 12, x: 21 }));
    assert_eq!(small.as_ref().checked_total_area_by_ref(), Some(200));
    assert_eq!(small.checked_horz_area_up_to(CoordPair { y: 4, x: 3 }), Ok(42));
    assert!(matches!(small.checked_horz_area_up_to(CoordPair { y: 0, x: 3 }), Err(HorzAreaError::InvalidRectPoint(_))));
    let big = Rect { top_left: CoordPair { y: 0u8, x: 0u8 }, size: CoordPair { y: 200u8, x: 200u8 } };
    assert!(matches!(
        big.checked_horz_area_up_to(CoordPair { y: 100, x: 3 }),
        Err(HorzAreaError::Overflow { size: CoordPair { y: 200, x: 200 } })
    ));
}

#[test]
fn steps_and_seasons_go_round() {
    for step in [CircadianCycleStep::Sunrise, CircadianCycleStep::DayLight, CircadianCycleStep::Sunset, CircadianCycleStep::Night] {
        assert_eq!(step.next().prev(), step);
        assert_eq!(step.prev().next(), step);
    }
    assert_eq!(CircadianCycleStep::Night.next(), CircadianCycleStep::Sunrise);
    for season in Season::all() {
        assert_eq!(season.next().prev(), season);
        assert_eq!(season.prev().next(), season);
    }
    assert_eq!(Season::Winter.next(), Season::Ware);
}

#[test]
fn freeing_tests_the_number_as_a_mask() {
    let mut registry = Registry::all_free();
    let first = registry.allocate().unwrap();
    let second = registry.allocate().unwrap();
    assert_eq!((first.bits(), second.bits()), (1, 2));
    assert!(!registry.is_allocated(first));
    assert!(registry.is_allocated(second));
    assert_eq!(registry.free(first), Ok(()));
    assert_eq!(registry.free(second), Err(DeallocError::AlreadyFree(second)));
    assert_eq!(registry.allocate().unwrap().bits(), 3);
}

#[test]
fn removing_undoes_inserting() {
    let mut map: CoordMap<u16, char> = CoordMap::new();
    map.insert(CoordPair { y: 1, x: 2 }, 'a');
    let key = CoordPair { y: 3, x: 4 };
    assert_eq!(map.insert(key, 'b'), None);
    assert_eq!(map.get(key.as_ref()), Some(&'b'));
    assert_eq!(map.remove(key.as_ref()), Some('b'));
    assert_eq!(map.get(key.as_ref()), None);
    assert_eq!(map.len(), 1);
    assert_eq!(map.get(CoordPair { y: 1, x: 2 }.as_ref()), Some(&'a'));
}

#[test]
fn opposite_moves_come_back() {
    for direction in Direction::all() {
        let p = CoordPair { y: 50u16, x: 60u16 };
        let there = p.checked_move_unit(direction).unwrap();
        let opposite = match direction {
            Direction::Up => Direction::Down,
            Direction::Down => Direction::Up,
            Direction::Left => Direction::Right,
            Direction::Right => Direction::Left,
        };
        assert_eq!(there.checked_move_unit(opposite), Some(p));
    }
}

#[test]
fn circadian_step_for_day_of_year() {
    assert_eq!(CircadianCycleStep::for_day_of_year(0, Ratio::new(0, 1)), CircadianCycleStep::Sunrise);
    assert_eq!(CircadianCycleStep::for_day_of_year(0, Ratio::new(1, 3)), CircadianCycleStep::DayLight);
    assert_eq!(CircadianCycleStep::for_day_of_year(0, Ratio::new(99, 100)), CircadianCycleStep::Night);
}
