use thedes::domain::geometry::{CoordPair, Rect};
use thedes::domain::map::GameMap;
use thedes::domain::matter::{Biome, Ground};
use thedes::gen::layer::{BiomeLayer, GroundLayer, GroundLayerDistr, Layer};
use thedes::gen::pointwise;
use thedes::gen::random::create_reproducible_rng;
use thedes::gen::region::{fill_regions, Config, Error, Generator, InvalidRegionConfig, NopCollector};
use thedes::gen::sparse_points::{self, GeneratorState, GeneratorTickArgs};
use thedes::ratio::Ratio;

fn small_map() -> GameMap {
    let rect = Rect { top_left: CoordPair { y: 10, x: 20 }, size: CoordPair { y: 100, x: 120 } };
    GameMap::new(rect).unwrap()
}

fn points(map: &GameMap) -> Vec<CoordPair> {
    let rect = map.rect();
    let mut all = Vec::new();
    for y in rect.top_left.y .. rect.top_left.y + rect.size.y {
        for x in rect.top_left.x .. rect.top_left.x + rect.size.x {
            all.push(CoordPair { y, x });
        }
    }
    all
}

#[test]
fn regions_cover_the_whole_map() {
    let mut map = small_map();
    let mut rng = create_reproducible_rng(42);
    let data = vec![Biome::Desert, Biome::Wasteland, Biome::Desert, Biome::Wasteland, Biome::Desert];
    let result: Result<(), Error<_, (), _>> = fill_regions(&BiomeLayer, &data, &mut map, &mut rng, &mut NopCollector);
    assert!(result.is_ok());
    let mut deserts = 0;
    let mut wastelands = 0;
    for point in points(&map) {
        match map.get_biome(point).unwrap() {
            Biome::Desert => deserts += 1,
            Biome::Wasteland => wastelands += 1,
            Biome::Plains => panic!("point {:?} was left out of every region", point),
        }
    }
    assert_eq!(deserts + wastelands, 100 * 120);
    assert!(deserts > 0);
    assert!(wastelands > 0);
}

#[test]
fn one_region_takes_every_point() {
    let mut map = small_map();
    let mut rng = create_reproducible_rng(7);
    let data = vec![Biome::Wasteland];
    let result: Result<(), Error<_, (), _>> = fill_regions(&BiomeLayer, &data, &mut map, &mut rng, &mut NopCollector);
    assert!(result.is_ok());
    for point in points(&map) {
        assert_eq!(map.get_biome(point), Ok(Biome::Wasteland));
    }
}

#[test]
fn regions_are_reproducible() {
    let data = vec![Biome::Desert, Biome::Wasteland, Biome::Plains];
    let mut first = small_map();
    let mut second = small_map();
    let mut rng = create_reproducible_rng(3);
    let _: Result<(), Error<_, (), _>> = fill_regions(&BiomeLayer, &data, &mut first, &mut rng, &mut NopCollector);
    let mut rng = create_reproducible_rng(3);
    let _: Result<(), Error<_, (), _>> = fill_regions(&BiomeLayer, &data, &mut second, &mut rng, &mut NopCollector);
    for point in points(&first) {
        assert_eq!(first.get_biome(point), second.get_biome(point));
    }
}

#[test]
fn region_generator_draws_values() {
    let mut map = small_map();
    let mut rng = create_reproducible_rng(11);
    let mut distr = thedes::gen::matter::BiomeDist::new(|biome| if biome == Biome::Desert { 1 } else { 0 });
    let generator = Generator::new(6);
    assert_eq!(generator.region_count(), 6);
    assert_eq!(generator.progress_goal(&map), 2 * 100 * 120 + 6 + 3);
    generator.execute(&BiomeLayer, &mut distr, &mut map, &mut rng, &mut NopCollector).unwrap();
    for point in points(&map) {
        assert_eq!(map.get_biome(point), Ok(Biome::Desert));
    }
}

#[test]
fn ground_follows_biome_point_by_point() {
    let mut map = small_map();
    let mut rng = create_reproducible_rng(5);
    let data = vec![Biome::Desert, Biome::Wasteland, Biome::Plains, Biome::Desert];
    let _: Result<(), Error<_, (), _>> = fill_regions(&BiomeLayer, &data, &mut map, &mut rng, &mut NopCollector);
    let generator = pointwise::Generator::new();
    assert_eq!(generator.progress_goal(&map), 100 * 120);
    generator.execute(&GroundLayer, &GroundLayerDistr, &mut map, &mut rng).unwrap();
    for point in points(&map) {
        let expected = match map.get_biome(point).unwrap() {
            Biome::Plains => Ground::Grass,
            Biome::Desert => Ground::Sand,
            Biome::Wasteland => Ground::Stone,
        };
        assert_eq!(map.get_ground(point), Ok(expected));
    }
}

#[test]
fn layers_refuse_points_outside() {
    let mut map = small_map();
    let outside = CoordPair { y: 0, x: 0 };
    assert!(BiomeLayer.get(&mut map, outside).is_err());
    assert!(GroundLayer.set(&mut map, outside, Ground::Sand).is_err());
    let inside = CoordPair { y: 10, x: 20 };
    GroundLayer.set(&mut map, inside, Ground::Stone).unwrap();
    assert_eq!(GroundLayer.get(&mut map, inside), Ok(Ground::Stone));
}

#[test]
fn sparse_points_generator_walks_every_point() {
    let mut map = small_map();
    let data = vec![Biome::Wasteland, Biome::Desert];
    let mut rng = create_reproducible_rng(9);
    let _: Result<(), Error<_, (), _>> = fill_regions(&BiomeLayer, &data, &mut map, &mut rng, &mut NopCollector);
    let mut generator = sparse_points::Generator::new();
    assert_eq!(generator.current_progress(), 1);
    assert_eq!(generator.progress_goal(), 0);
    assert_eq!(generator.progress_status(), "initializing block generator");
    let mut ticks = 0;
    loop {
        let args = GeneratorTickArgs { layer: &GroundLayer, layer_dist: &GroundLayerDistr, map: &mut map, rng: &mut rng };
        let done = generator.on_tick(args).unwrap();
        ticks += 1;
        if ticks == 1 {
            assert_eq!(generator.progress_goal(), 220);
            assert_eq!(generator.progress_status(), "generating point block");
        }
        if done.is_some() {
            break;
        }
    }
    assert_eq!(ticks, 100 * 120);
    assert_eq!(generator.progress_status(), "done");
    for point in points(&map) {
        let expected = match map.get_biome(point).unwrap() {
            Biome::Plains => Ground::Grass,
            Biome::Desert => Ground::Sand,
            Biome::Wasteland => Ground::Stone,
        };
        assert_eq!(map.get_ground(point), Ok(expected));
    }
    let args = GeneratorTickArgs { layer: &GroundLayer, layer_dist: &GroundLayerDistr, map: &mut map, rng: &mut rng };
    assert_eq!(generator.on_tick(args), Ok(Some(())));
    assert_eq!(generator.current_progress(), 220);
    generator.reset();
    assert_eq!(generator.current_progress(), 0);
    assert_eq!(generator.progress_goal(), 1);
    let _ = GeneratorState::Init;
}

#[test]
fn region_config_checks_ratios() {
    let config = Config::new();
    assert_eq!(
        Config::new().with_min_region_count(Ratio::new(3, 2)).unwrap_err(),
        InvalidRegionConfig::RatioRange { ratio: Ratio::new(3, 2) }
    );
    assert_eq!(
        Config::new().with_min_region_count(Ratio::new(1, 5)).unwrap_err(),
        InvalidRegionConfig::CountBoundOrder { min: Ratio::new(1, 5), max: Ratio::new(1, 10) }
    );
    assert_eq!(
        Config::new().with_min_region_count(Ratio::new(1, 15)).unwrap_err(),
        InvalidRegionConfig::PeakOutOfBounds { min: Ratio::new(1, 15), peak: Ratio::new(1, 20), max: Ratio::new(1, 10) }
    );
    assert!(Config::new().with_min_region_count(Ratio::new(1, 40)).is_ok());
    assert_eq!(
        Config::new().with_max_region_count(Ratio::new(1, 40)).unwrap_err(),
        InvalidRegionConfig::CountBoundOrder { min: Ratio::new(1, 30), max: Ratio::new(1, 40) }
    );
    assert_eq!(
        Config::new().with_max_region_count(Ratio::new(1, 25)).unwrap_err(),
        InvalidRegionConfig::PeakOutOfBounds { min: Ratio::new(1, 30), peak: Ratio::new(1, 20), max: Ratio::new(1, 25) }
    );
    assert_eq!(
        Config::new().with_peak_region_count(Ratio::new(1, 5)).unwrap_err(),
        InvalidRegionConfig::PeakOutOfBounds { min: Ratio::new(1, 30), peak: Ratio::new(1, 5), max: Ratio::new(1, 10) }
    );
    assert!(Config::new().with_peak_region_count(Ratio::new(1, 12)).is_ok());
    assert_eq!(config.count_bounds(CoordPair { y: 100, x: 100 }), (20, 20, 20));
    let wide = Config::new().with_max_region_count(Ratio::new(1, 1)).unwrap();
    assert_eq!(wide.count_bounds(CoordPair { y: 3, x: 4 }), (7, 7, 7));
}

#[test]
fn ratios_compare_by_value() {
    assert_eq!(Ratio::new(1, 2), Ratio::new(2, 4));
    assert_ne!(Ratio::new(1, 2), Ratio::new(2, 3));
    assert!(Ratio::new(1, 3).lt(&Ratio::new(1, 2)));
    assert!(!Ratio::new(1, 2).lt(&Ratio::new(2, 4)));
    assert!(Ratio::new(3, 2).gt(&Ratio::one()));
    assert!(Ratio::zero().lt(&Ratio::new(1, 1000)));
    assert_eq!(Ratio::new(1, 3).floor_mul_capped(10, 100), 3);
    assert_eq!(Ratio::new(1, 3).ceil_mul_capped(10, 100), 4);
    assert_eq!(Ratio::new(5, 1).floor_mul_capped(10, 20), 20);
    assert_eq!(Ratio::new(2, 7).numer(), 2);
    assert_eq!(Ratio::new(2, 7).denom(), 7);
}

struct Refusing {
    regions_left: usize,
    points_left: usize,
}

impl thedes::gen::region::Collector<Biome> for Refusing {
    type Error = &'static str;

    fn add_region(&mut self, _center: CoordPair, _data: &Biome) -> Result<(), &'static str> {
        if self.regions_left == 0 {
            return Err("no more regions");
        }
        self.regions_left -= 1;
        Ok(())
    }

    fn add_point(&mut self, _region: usize, _point: CoordPair) -> Result<(), &'static str> {
        if self.points_left == 0 {
            return Err("no more points");
        }
        self.points_left -= 1;
        Ok(())
    }
}

#[test]
fn collectors_may_refuse_regions_and_points() {
    let data = vec![Biome::Desert, Biome::Wasteland];
    let mut map = small_map();
    let mut rng = create_reproducible_rng(4);
    let mut refusing = Refusing { regions_left: 1, points_left: 1000 };
    let result: Result<(), Error<_, (), _>> = fill_regions(&BiomeLayer, &data, &mut map, &mut rng, &mut refusing);
    assert_eq!(result, Err(Error::Collection("no more regions")));
    for point in points(&map) {
        assert_eq!(map.get_biome(point), Ok(Biome::Plains));
    }
    let mut refusing = Refusing { regions_left: 2, points_left: 10 };
    let result: Result<(), Error<_, (), _>> = fill_regions(&BiomeLayer, &data, &mut map, &mut rng, &mut refusing);
    assert_eq!(result, Err(Error::Collection("no more points")));
}
