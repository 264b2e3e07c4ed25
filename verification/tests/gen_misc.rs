use thedes::domain::geometry::{CoordPair, Rect};
use thedes::domain::map::GameMap;
use thedes::domain::matter::{Biome, Ground};
use thedes::domain::thede::{AllocError, Id};
use thedes::domain::time::{CircadianCycleStep, Time};
use thedes::gen::lands::{InitialLand, InitialLandsCollector, InitialLandsError};
use thedes::gen::map::{Config as MapConfig, Generator as MapGenerator, InvalidConfig};
use thedes::gen::matter::BiomeDist;
use thedes::gen::progress::Shared;
use thedes::gen::random::{create_reproducible_rng, MutableDistribution};
use thedes::gen::region::{self, Collector};
use thedes::gen::sm::{Resources, State, StateMachine};
use thedes::gen::structure::{Config as StructureConfig, ConfigError};
use thedes::gen::thede::{ThedeDistrConfig, ThedeDistrError};
use thedes::geometry::axis::DirectionMap;
use thedes::ratio::Ratio;

#[test]
fn thede_distr_gives_out_identifiers_in_order() {
    let mut distr = ThedeDistrConfig::new().with_unclaimed_weight(0).with_new_thede_weight(3).finish();
    let mut rng = create_reproducible_rng(1);
    for bits in 1 ..= 255u8 {
        let id = distr.sample_mut(&mut rng).unwrap().unwrap();
        assert_eq!(id.bits(), bits);
    }
    assert_eq!(distr.sample_mut(&mut rng).unwrap_err(), ThedeDistrError::AllocError(AllocError::Exhausted));
    let mut registry = distr.finish();
    assert_eq!(registry.allocate(), Err(AllocError::Exhausted));
}

#[test]
fn thede_distr_may_leave_regions_unclaimed() {
    let mut distr = ThedeDistrConfig::new().with_new_thede_weight(0).finish();
    let mut rng = create_reproducible_rng(2);
    for _ in 0 .. 50 {
        assert_eq!(distr.sample_mut(&mut rng), Ok(None));
    }
    let mut distr = ThedeDistrConfig::default().finish();
    let mut some = 0;
    for _ in 0 .. 200 {
        if distr.sample_mut(&mut rng).unwrap().is_some() {
            some += 1;
        }
    }
    assert!(some > 0 && some < 200);
}

#[test]
fn biome_dist_draws_only_weighted_biomes() {
    let dist = BiomeDist::new(|biome| match biome {
        Biome::Plains => 0,
        Biome::Desert => 0,
        Biome::Wasteland => 4,
    });
    let mut rng = create_reproducible_rng(3);
    for _ in 0 .. 100 {
        assert_eq!(dist.sample(&mut rng), Biome::Wasteland);
    }
    let dist = BiomeDist::default();
    let mut seen = [false; 3];
    for _ in 0 .. 300 {
        match dist.sample(&mut rng) {
            Biome::Plains => seen[0] = true,
            Biome::Desert => seen[1] = true,
            Biome::Wasteland => seen[2] = true,
        }
    }
    assert_eq!(seen, [true, true, true]);
}

#[test]
fn initial_lands_count_their_points() {
    let mut collector = InitialLandsCollector::new();
    let id = Id::new(4).unwrap();
    let center = CoordPair { y: 5, x: 6 };
    collector.add_region(center, &Some(id)).unwrap();
    collector.add_region(CoordPair { y: 1, x: 1 }, &None).unwrap();
    collector.add_point(0, CoordPair { y: 5, x: 7 }).unwrap();
    collector.add_point(0, CoordPair { y: 6, x: 6 }).unwrap();
    collector.add_point(1, CoordPair { y: 1, x: 2 }).unwrap();
    assert_eq!(
        collector.add_point(5, CoordPair { y: 0, x: 0 }),
        Err(InitialLandsError::InvalidRegion { index: 5, len: 2 })
    );
    let lands = collector.drain();
    assert_eq!(lands, vec![InitialLand { id, location: center, area: 2 }]);
    assert!(collector.drain().is_empty());
}

#[test]
fn progress_joins_open_statuses() {
    let mut shared = Shared::new(10);
    assert_eq!(shared.goal(), 10);
    assert_eq!(shared.read_status(), "");
    let outer = shared.enter();
    let inner = shared.enter();
    assert_eq!((outer, inner), (0, 1));
    shared.set_status(outer, "generating map");
    shared.set_status(inner, "biomes");
    assert_eq!(shared.read_status(), "generating map > biomes");
    shared.increment();
    shared.increment();
    let progress = shared.read();
    assert_eq!(progress.current(), 2);
    assert_eq!(progress.status(), "generating map > biomes");
    shared.leave(outer);
    assert_eq!(shared.read_status(), "biomes");
    shared.leave(inner);
    assert_eq!(shared.read_status(), "");
    assert_eq!(shared.enter(), 0);
}

#[derive(Debug, Clone, Copy, PartialEq, Eq)]
enum Phase {
    Start,
    Middle,
    End,
}

impl State for Phase {
    fn initial_spec() -> Self {
        Phase::Start
    }

    fn default_initial() -> Self {
        Phase::Start
    }

    fn is_final(&self) -> bool {
        *self == Phase::End
    }
}

struct Steps {
    taken: u32,
}

impl Resources<bool> for Steps {
    type State = Phase;
    type Error = u32;

    fn transition(&mut self, state: Phase, fail: bool) -> Result<Phase, u32> {
        self.taken += 1;
        if fail {
            return Err(self.taken);
        }
        Ok(match state {
            Phase::Start => Phase::Middle,
            Phase::Middle | Phase::End => Phase::End,
        })
    }
}

#[test]
fn state_machine_steps_and_resets() {
    let mut machine: StateMachine<Steps, Phase> = StateMachine::new(Steps { taken: 0 });
    assert_eq!(*machine.state(), Phase::Start);
    machine.transition(false).unwrap();
    assert_eq!(*machine.state(), Phase::Middle);
    machine.transition(false).unwrap();
    assert!(machine.state().is_final());
    assert_eq!(machine.transition(true), Err(3));
    assert_eq!(*machine.state(), Phase::Start);
    machine.resources_mut().taken = 10;
    assert_eq!(machine.resources().taken, 10);
    machine.transition(false).unwrap();
    machine.reset_state();
    assert_eq!(*machine.state(), Phase::Start);
    let other = StateMachine::with_initial_state(Steps { taken: 0 }, Phase::End);
    assert!(other.state().is_final());
}

#[test]
fn clock_moves_within_the_day() {
    let mut time = Time::new();
    time.set_day(3);
    time.set_in_day_clock(Ratio::new(1, 2));
    assert_eq!(time.stamp(), 3 * 0x1_0000 + 0x8000);
    assert_eq!(time.in_day_clock(), Ratio::new(1, 2));
    assert_eq!(time.day(), 3);
    time.set_in_day_clock(Ratio::new(7, 3));
    assert_eq!(time.stamp(), 3 * 0x1_0000 + 0xFFFF);
    time.set_circadian_cycle_step(CircadianCycleStep::Sunrise);
    assert_eq!(time.stamp(), 3 * 0x1_0000);
    assert_eq!(time.circadian_cycle_step(), CircadianCycleStep::Sunrise);
    let mut previous = time.stamp();
    for step in [CircadianCycleStep::DayLight, CircadianCycleStep::Sunset, CircadianCycleStep::Night] {
        time.set_circadian_cycle_step(step);
        assert_eq!(time.day(), 3);
        assert!(time.stamp() > previous);
        previous = time.stamp();
    }
}

#[test]
fn structure_config_checks_bounds() {
    let config = StructureConfig::new();
    assert_eq!(config.min_house_size(), CoordPair { y: 5, x: 5 });
    assert_eq!(config.max_house_size(), CoordPair { y: 20, x: 20 });
    assert_eq!(config.min_house_count(), Ratio::new(1, 20));
    assert_eq!(
        StructureConfig::new().with_min_house_count(Ratio::new(1, 101)).unwrap_err(),
        ConfigError::HouseRatioTooSmall(Ratio::new(1, 101))
    );
    assert_eq!(
        StructureConfig::new().with_max_house_count(Ratio::new(3, 2)).unwrap_err(),
        ConfigError::HouseRatioTooBig(Ratio::new(3, 2))
    );
    assert_eq!(
        StructureConfig::new().with_min_house_size(CoordPair { y: 4, x: 60 }).unwrap_err(),
        ConfigError::HouseSizeTooSmall(CoordPair { y: 4, x: 60 })
    );
    assert_eq!(
        StructureConfig::new().with_max_house_size(CoordPair { y: 50, x: 51 }).unwrap_err(),
        ConfigError::HouseSizeTooBig(CoordPair { y: 50, x: 51 })
    );
    let changed = StructureConfig::new()
        .with_max_house_count(Ratio::new(1, 1))
        .unwrap()
        .with_min_house_size(CoordPair { y: 6, x: 0 })
        .unwrap();
    assert_eq!(changed.max_house_count(), Ratio::new(1, 1));
    assert_eq!(changed.min_house_size(), CoordPair { y: 6, x: 0 });
}

#[test]
fn map_config_checks_bounds() {
    assert_eq!(
        MapConfig::new().with_min_top_left(CoordPair { y: 10_001, x: 0 }).unwrap_err(),
        InvalidConfig::TopLeftBoundOrder { min: CoordPair { y: 10_001, x: 0 }, max: CoordPair { y: 10_000, x: 10_000 } }
    );
    assert_eq!(
        MapConfig::new().with_max_top_left(CoordPair { y: 65_000, x: 0 }).unwrap_err(),
        InvalidConfig::BottomRightOverflow {
            given_rect: Rect { top_left: CoordPair { y: 65_000, x: 0 }, size: CoordPair { y: 1050, x: 1050 } },
        }
    );
    assert_eq!(
        MapConfig::new().with_min_size(CoordPair { y: 2000, x: 10 }).unwrap_err(),
        InvalidConfig::SizeBoundOrder { min: CoordPair { y: 2000, x: 10 }, max: CoordPair { y: 1050, x: 1050 } }
    );
    let config = MapConfig::new().with_max_size(CoordPair { y: 1000, x: 1100 }).unwrap();
    assert_eq!(config.max_size(), CoordPair { y: 1000, x: 1100 });
    assert_eq!(config.min_top_left(), CoordPair { y: 0, x: 0 });
}

#[test]
fn map_generator_fills_biomes_and_grounds() {
    let rect = Rect { top_left: CoordPair { y: 0, x: 0 }, size: CoordPair { y: 100, x: 100 } };
    let map = GameMap::new(rect).unwrap();
    let generator = MapGenerator::new(MapConfig::new(), map, region::Generator::new(20));
    assert_eq!(generator.progress_goal(), 3 * 100 * 100 + 20 + 3);
    let mut rng = create_reproducible_rng(8);
    let map = generator.execute(&mut rng).unwrap();
    assert_eq!(map.rect(), rect);
    for y in 0 .. 100 {
        for x in 0 .. 100 {
            let point = CoordPair { y, x };
            let expected = match map.get_biome(point).unwrap() {
                Biome::Plains => Ground::Grass,
                Biome::Desert => Ground::Sand,
                Biome::Wasteland => Ground::Stone,
            };
            assert_eq!(map.get_ground(point), Ok(expected));
        }
    }
}

#[test]
fn generation_config_keeps_the_seed() {
    let config = thedes::gen::Config::new();
    assert_eq!(config.seed(), 1);
    let config = config.with_seed(77).with_game(thedes::gen::game::Config::new());
    assert_eq!(config.seed(), 77);
}

#[test]
fn pairs_lend_their_components() {
    let mut pair = CoordPair { y: 3u16, x: 4u16 };
    {
        let refs = pair.as_mut();
        *refs.y = 30;
        *refs.x += 1;
    }
    assert_eq!(pair, CoordPair { y: 30, x: 5 });
    let mut rect = Rect { top_left: CoordPair { y: 1, x: 2 }, size: CoordPair { y: 3, x: 4 } };
    {
        let refs = rect.as_mut();
        *refs.size.x = 40;
        let shared = refs.share();
        assert_eq!(*shared.size.x, 40);
    }
    assert_eq!(rect.size.x, 40);
    assert_eq!(rect.horz_area_up_to(CoordPair { y: 3, x: 5 }), 40 * 2 + 3);
    let mut table = DirectionMap { up: 1, left: 2, down: 3, right: 4 };
    {
        let refs = table.as_mut();
        *refs.down = 30;
        let shared = refs.share();
        assert_eq!(*shared.down, 30);
    }
    assert_eq!(table.down, 30);
    let mut other = CoordPair { y: 1u16, x: 2u16 };
    let shared = other.as_mut().share();
    assert_eq!((*shared.y, *shared.x), (1, 2));
}

