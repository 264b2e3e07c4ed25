use thedes::ecs::component::{Component, Id};
use thedes::ecs::error::Error;
use thedes::ecs::system::{Context, SystemRunner, TypedRunnerAdapter, TypedSystemRunner};
use thedes::ecs::value::{Entry, Value};
use thedes::ecs::world::World;

#[derive(Debug, Clone, Copy, PartialEq)]
struct Real(f64);

impl Value for Real {
    fn from_spec(primitive: u64) -> Self {
        Self::from_primitive(primitive)
    }

    fn to_spec(&self) -> u64 {
        self.to_primitive()
    }

    fn from_primitive(primitive: u64) -> Self {
        Real(f64::from_bits(primitive))
    }

    fn to_primitive(&self) -> u64 {
        self.0.to_bits()
    }
}

struct Position;

impl Component for Position {
    type Value = Real;
    const NAME: &'static str = "Position";
}

struct Speed;

impl Component for Speed {
    type Value = Real;
    const NAME: &'static str = "Speed";
}

struct Acceleration;

impl Component for Acceleration {
    type Value = Real;
    const NAME: &'static str = "Acceleration";
}

#[derive(Clone)]
struct Movement;

impl TypedSystemRunner<(Id<Position>, Id<Speed>)> for Movement {
    fn run<'e>(
        &mut self,
        _ctx: &Context,
        entries: (Entry<'e, Position>, Entry<'e, Speed>),
    ) -> Result<(), Error> {
        let (mut position, speed) = entries;
        position.set(Real(position.get().0 + speed.get().0));
        Ok(())
    }
}

#[derive(Clone)]
struct Accelerating;

impl TypedSystemRunner<(Id<Speed>, Id<Acceleration>)> for Accelerating {
    fn run<'e>(
        &mut self,
        _ctx: &Context,
        entries: (Entry<'e, Speed>, Entry<'e, Acceleration>),
    ) -> Result<(), Error> {
        let (mut speed, acceleration) = entries;
        speed.set(Real(speed.get().0 * acceleration.get().0));
        Ok(())
    }
}

fn float_diff(left: f64, right: f64) -> f64 {
    let max_side = left.max(right);
    (left - right).abs() / max_side
}

fn assert_float_eq(left: Real, right: f64) {
    let diff = float_diff(left.0, right);
    assert!(diff <= f64::EPSILON, "Float not equal (diff: {diff}, left: {}, right: {right})", left.0);
}

#[test]
fn position_checks() -> Result<(), Error> {
    let mut world = World::new();
    let position = world.get_or_create_component(Position);
    let speed = world.get_or_create_component(Speed);
    let acceleration = world.get_or_create_component(Acceleration);

    let ball = world.create_entity();
    world.create_value(ball, position, Real(10.0))?;
    world.create_value(ball, speed, Real(2.0))?;

    let player = world.create_entity();
    world.create_value(player, position, Real(9.0))?;
    world.create_value(player, speed, Real(1.0))?;
    world.create_value(player, acceleration, Real(3.0))?;

    world.create_system("movement", (position, speed), Movement)?;

    world.create_system("acceleration", (speed, acceleration), Accelerating)?;

    world.tick()?;
    world.tick()?;
    world.tick()?;
    world.tick()?;

    let ball_position = world.get_value(ball, position)?;
    let ball_speed = world.get_value(ball, speed)?;

    let player_position = world.get_value(player, position)?;
    let player_speed = world.get_value(player, speed)?;
    let player_acceleration = world.get_value(player, acceleration)?;

    println!("ball position: {}", ball_position.0);
    println!("ball speed: {}", ball_speed.0);
    println!("player position: {}", player_position.0);
    println!("player speed: {}", player_speed.0);
    println!("player acceleration: {}", player_acceleration.0);

    assert_float_eq(ball_speed, 2.0);
    assert_float_eq(ball_position, 18.0);
    assert_float_eq(player_speed, 81.0);
    assert_float_eq(player_position, 49.0);
    assert_float_eq(player_acceleration, 3.0);

    Ok(())
}

#[test]
fn tick_without_systems_succeeds() {
    let mut world = World::new();
    let _ = world.create_entity();
    assert!(world.tick().is_ok());
}

#[test]
fn boxed_systems_run_like_typed_ones() {
    let mut world = World::new();
    let position = world.get_or_create_component(Position);
    let speed = world.get_or_create_component(Speed);
    let ball = world.create_entity();
    world.create_value(ball, position, Real(10.0)).unwrap();
    world.create_value(ball, speed, Real(2.0)).unwrap();
    let mut runner: Box<dyn SystemRunner> =
        Box::new(TypedRunnerAdapter::<Movement, (Id<Position>, Id<Speed>)>::new(Movement));
    let id = world.create_system_boxed("movement", vec![position.raw(), speed.raw()], &mut runner).unwrap();
    assert_eq!(world.get_system("movement").unwrap(), id);
    let mut again: Box<dyn SystemRunner> =
        Box::new(TypedRunnerAdapter::<Movement, (Id<Position>, Id<Speed>)>::new(Movement));
    assert!(world.create_system_boxed("movement", vec![position.raw(), speed.raw()], &mut again).is_err());
    world.tick().unwrap();
    world.tick().unwrap();
    assert_float_eq(world.get_value(ball, position).unwrap(), 14.0);
    assert_float_eq(world.get_value(ball, speed).unwrap(), 2.0);
}
