use thedes::domain::game2::{Game2, Game2Input};
use thedes::domain::geometry::CoordPair;
use thedes::domain::time::Time;
use thedes::gen::event::direction_weights;
use thedes::geometry::axis::Direction;

#[test]
fn game2_moves_the_head_once_per_move() {
    let mut game = Game2::new(Game2Input { player_head_pos: CoordPair { y: 10, x: 10 } }).unwrap();
    assert_eq!(game.player_pos().unwrap(), CoordPair { y: 10, x: 10 });
    assert!(game.move_player(Direction::Right).is_ok());
    assert!(game.tick().is_ok());
    assert_eq!(game.player_pos().unwrap(), CoordPair { y: 10, x: 11 });
    assert!(game.tick().is_ok());
    assert_eq!(game.player_pos().unwrap(), CoordPair { y: 10, x: 11 });
    assert!(game.move_player(Direction::Up).is_ok());
    assert!(game.tick().is_ok());
    assert_eq!(game.player_pos().unwrap(), CoordPair { y: 9, x: 11 });
}

#[test]
fn game2_tick_without_a_move_keeps_the_head() {
    let mut game = Game2::new(Game2Input { player_head_pos: CoordPair { y: 3, x: 4 } }).unwrap();
    assert!(game.tick().is_ok());
    assert_eq!(game.player_pos().unwrap(), CoordPair { y: 3, x: 4 });
}

#[test]
fn clock_ends_after_exactly_the_world_ticks() {
    let mut time = Time::new();
    let total: u64 = 270 * 0x1_0000;
    let mut previous = time.stamp();
    for _ in 0 .. total - 1 {
        time.on_tick();
        assert!(time.stamp() > previous);
        previous = time.stamp();
    }
    assert!(!time.world_ended());
    time.on_tick();
    assert!(time.world_ended());
    assert_eq!(time.stamp(), total);
    time.on_tick();
    assert!(time.world_ended());
    assert_eq!(time.stamp(), total);
}

#[test]
fn direction_weights_favour_the_facing() {
    assert_eq!(direction_weights(Direction::Up), [5, 1, 1, 1]);
    assert_eq!(direction_weights(Direction::Left), [1, 5, 1, 1]);
    assert_eq!(direction_weights(Direction::Down), [1, 1, 5, 1]);
    assert_eq!(direction_weights(Direction::Right), [1, 1, 1, 5]);
}
