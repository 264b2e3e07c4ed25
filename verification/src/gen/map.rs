//! Generation of the map: its rectangle is drawn between bounds, then the
//! biome layer is grown by regions and the ground layer follows the biomes.
use vstd::prelude::*;
use std::convert::Infallible;
use crate::domain::gen::{any_greater, corner_fits, out_of_order};
use crate::domain::geometry::{CoordPair, Rect};
use crate::domain::map::{AccessError, GameMap};
use crate::gen::layer::{ground_of, BiomeLayer, GroundLayer, GroundLayerDistr, Layer, LayerDistribution};
use crate::gen::pointwise::{draws_outside_of, never_fails};
use crate::gen::region::{accepts_anywhere, filled};
use crate::domain::matter::Biome;
use crate::gen::matter::BiomeDist;
use crate::gen::random::PickedReproducibleRng;
use crate::gen::{pointwise, region};

verus! {

/// A map configuration refused.
#[derive(Debug, Clone, Copy, PartialEq, Eq)]
pub enum InvalidConfig {
    /// The rectangle reaches past the last coordinate.
    BottomRightOverflow { given_rect: Rect },
    /// The least top left would exceed the greatest.
    TopLeftBoundOrder { min: CoordPair, max: CoordPair },
    /// The least size would exceed the greatest.
    SizeBoundOrder { min: CoordPair, max: CoordPair },
}

/// Why generating the map failed.
#[derive(Debug, Clone, Copy, PartialEq, Eq)]
pub enum Error {
    /// The biome layer could not be grown.
    BiomeLayer(region::Error<AccessError, Infallible, Infallible>),
    /// The ground layer could not be filled in.
    GroundLayer(pointwise::Error<AccessError, AccessError>),
}

/// The configuration of the map: the bounds of its rectangle, the
/// distribution of biomes, the counts of biome regions, and the distribution
/// of grounds.
#[derive(Debug, Clone)]
pub struct Config {
    min_top_left: CoordPair,
    max_top_left: CoordPair,
    min_size: CoordPair,
    max_size: CoordPair,
    biome_distr: BiomeDist,
    biome_layer_config: region::Config,
    ground_layer_distr: GroundLayerDistr,
}

impl Config {
    /// The least top left.
    pub closed spec fn min_top_left_spec(self) -> CoordPair {
        self.min_top_left
    }

    /// The greatest top left.
    pub closed spec fn max_top_left_spec(self) -> CoordPair {
        self.max_top_left
    }

    /// The least size.
    pub closed spec fn min_size_spec(self) -> CoordPair {
        self.min_size
    }

    /// The greatest size.
    pub closed spec fn max_size_spec(self) -> CoordPair {
        self.max_size
    }

    /// The configuration of the counts of biome regions.
    pub closed spec fn biome_layer_spec(self) -> region::Config {
        self.biome_layer_config
    }

    /// The distribution of biomes.
    pub closed spec fn biome_distr_spec(self) -> BiomeDist {
        self.biome_distr
    }

    /// Whether the rectangle bounds are the same in both.
    pub open spec fn same_bounds(self, other: Config) -> bool {
        &&& self.min_top_left_spec() == other.min_top_left_spec()
        &&& self.max_top_left_spec() == other.max_top_left_spec()
        &&& self.min_size_spec() == other.min_size_spec()
        &&& self.max_size_spec() == other.max_size_spec()
    }

    /// The default configuration: top left from (0, 0) to (10000, 10000),
    /// size from (950, 950) to (1050, 1050), and the default distributions.
    pub fn new() -> (r: Config)
        ensures
            r.min_top_left_spec() == (CoordPair { y: 0u16, x: 0u16 }),
            r.max_top_left_spec() == (CoordPair { y: 10_000u16, x: 10_000u16 }),
            r.min_size_spec() == (CoordPair { y: 950u16, x: 950u16 }),
            r.max_size_spec() == (CoordPair { y: 1050u16, x: 1050u16 }),
    {
        Config {
            min_top_left: CoordPair { y: 0, x: 0 },
            max_top_left: CoordPair { y: 10_000, x: 10_000 },
            min_size: CoordPair { y: 950, x: 950 },
            max_size: CoordPair { y: 1050, x: 1050 },
            biome_distr: BiomeDist::default(),
            biome_layer_config: region::Config::new(),
            ground_layer_distr: GroundLayerDistr::default(),
        }
    }

    /// This configuration with the least top left set, unless it exceeds the
    /// greatest, or the greatest size from it reaches past the last coordinate.
    pub fn with_min_top_left(self, min_top_left: CoordPair) -> (r: Result<Config, InvalidConfig>)
        ensures
            match r {
                Ok(c) => !out_of_order(min_top_left, self.max_top_left_spec()) && corner_fits(
                    min_top_left,
                    self.max_size_spec(),
                ) && c.min_top_left_spec() == min_top_left && c.max_top_left_spec() == self.max_top_left_spec()
                    && c.min_size_spec() == self.min_size_spec() && c.max_size_spec() == self.max_size_spec(),
                Err(e) => if out_of_order(min_top_left, self.max_top_left_spec()) {
                    e == InvalidConfig::TopLeftBoundOrder { min: min_top_left, max: self.max_top_left_spec() }
                } else {
                    !corner_fits(min_top_left, self.max_size_spec()) && e == InvalidConfig::BottomRightOverflow {
                        given_rect: Rect { top_left: min_top_left, size: self.max_size_spec() },
                    }
                },
            },
    {
        if any_greater(min_top_left, self.max_top_left) {
            return Err(InvalidConfig::TopLeftBoundOrder { min: min_top_left, max: self.max_top_left });
        }
        let rect = Rect { top_left: min_top_left, size: self.max_size };
        if rect.checked_bottom_right().is_none() {
            return Err(InvalidConfig::BottomRightOverflow { given_rect: rect });
        }
        Ok(Config { min_top_left, ..self })
    }

    /// This configuration with the greatest top left set, unless the least
    /// exceeds it, or the greatest size from it reaches past the last coordinate.
    pub fn with_max_top_left(self, max_top_left: CoordPair) -> (r: Result<Config, InvalidConfig>)
        ensures
            match r {
                Ok(c) => !out_of_order(self.min_top_left_spec(), max_top_left) && corner_fits(
                    max_top_left,
                    self.max_size_spec(),
                ) && c.min_top_left_spec() == self.min_top_left_spec() && c.max_top_left_spec() == max_top_left
                    && c.min_size_spec() == self.min_size_spec() && c.max_size_spec() == self.max_size_spec(),
                Err(e) => if out_of_order(self.min_top_left_spec(), max_top_left) {
                    e == InvalidConfig::TopLeftBoundOrder { min: self.min_top_left_spec(), max: max_top_left }
                } else {
                    !corner_fits(max_top_left, self.max_size_spec()) && e == InvalidConfig::BottomRightOverflow {
                        given_rect: Rect { top_left: max_top_left, size: self.max_size_spec() },
                    }
                },
            },
    {
        if any_greater(self.min_top_left, max_top_left) {
            return Err(InvalidConfig::TopLeftBoundOrder { min: self.min_top_left, max: max_top_left });
        }
        let rect = Rect { top_left: max_top_left, size: self.max_size };
        if rect.checked_bottom_right().is_none() {
            return Err(InvalidConfig::BottomRightOverflow { given_rect: rect });
        }
        Ok(Config { max_top_left, ..self })
    }

    /// This configuration with the least size set, unless it exceeds the
    /// greatest, or it reaches past the last coordinate from the greatest top left.
    pub fn with_min_size(self, min_size: CoordPair) -> (r: Result<Config, InvalidConfig>)
        ensures
            match r {
                Ok(c) => !out_of_order(min_size, self.max_size_spec()) && corner_fits(
                    self.max_top_left_spec(),
                    min_size,
                ) && c.min_top_left_spec() == self.min_top_left_spec() && c.max_top_left_spec()
                    == self.max_top_left_spec() && c.min_size_spec() == min_size && c.max_size_spec()
                    == self.max_size_spec(),
                Err(e) => if out_of_order(min_size, self.max_size_spec()) {
                    e == InvalidConfig::SizeBoundOrder { min: min_size, max: self.max_size_spec() }
                } else {
                    !corner_fits(self.max_top_left_spec(), min_size) && e == InvalidConfig::BottomRightOverflow {
                        given_rect: Rect { top_left: self.max_top_left_spec(), size: min_size },
                    }
                },
            },
    {
        if any_greater(min_size, self.max_size) {
            return Err(InvalidConfig::SizeBoundOrder { min: min_size, max: self.max_size });
        }
        let rect = Rect { top_left: self.max_top_left, size: min_size };
        if rect.checked_bottom_right().is_none() {
            return Err(InvalidConfig::BottomRightOverflow { given_rect: rect });
        }
        Ok(Config { min_size, ..self })
    }

    /// This configuration with the greatest size set, unless the least
    /// exceeds it, or it reaches past the last coordinate from the greatest top left.
    pub fn with_max_size(self, max_size: CoordPair) -> (r: Result<Config, InvalidConfig>)
        ensures
            match r {
                Ok(c) => !out_of_order(self.min_size_spec(), max_size) && corner_fits(
                    self.max_top_left_spec(),
                    max_size,
                ) && c.min_top_left_spec() == self.min_top_left_spec() && c.max_top_left_spec()
                    == self.max_top_left_spec() && c.min_size_spec() == self.min_size_spec() && c.max_size_spec()
                    == max_size,
                Err(e) => if out_of_order(self.min_size_spec(), max_size) {
                    e == InvalidConfig::SizeBoundOrder { min: self.min_size_spec(), max: max_size }
                } else {
                    !corner_fits(self.max_top_left_spec(), max_size) && e == InvalidConfig::BottomRightOverflow {
                        given_rect: Rect { top_left: self.max_top_left_spec(), size: max_size },
                    }
                },
            },
    {
        if any_greater(self.min_size, max_size) {
            return Err(InvalidConfig::SizeBoundOrder { min: self.min_size, max: max_size });
        }
        let rect = Rect { top_left: self.max_top_left, size: max_size };
        if rect.checked_bottom_right().is_none() {
            return Err(InvalidConfig::BottomRightOverflow { given_rect: rect });
        }
        Ok(Config { max_size, ..self })
    }

    /// This configuration with `config` for the counts of biome regions.
    pub fn with_biome_layer(self, config: region::Config) -> (r: Config)
        ensures
            r.same_bounds(self),
            r.biome_layer_spec() == config,
            r.biome_distr_spec() == self.biome_distr_spec(),
    {
        Config { biome_layer_config: config, ..self }
    }

    /// This configuration with `distr` for the biomes.
    pub fn with_biome_distr(self, distr: BiomeDist) -> (r: Config)
        ensures
            r.same_bounds(self),
            r.biome_distr_spec() == distr,
            r.biome_layer_spec() == self.biome_layer_spec(),
    {
        Config { biome_distr: distr, ..self }
    }

    /// This configuration with `distr` for the grounds.
    pub fn with_ground_layer_distr(self, distr: GroundLayerDistr) -> (r: Config)
        ensures
            r.same_bounds(self),
            r.biome_distr_spec() == self.biome_distr_spec(),
            r.biome_layer_spec() == self.biome_layer_spec(),
    {
        Config { ground_layer_distr: distr, ..self }
    }

    /// The least top left.
    pub fn min_top_left(&self) -> (r: CoordPair)
        ensures
            r == self.min_top_left_spec(),
    {
        self.min_top_left
    }

    /// The greatest top left.
    pub fn max_top_left(&self) -> (r: CoordPair)
        ensures
            r == self.max_top_left_spec(),
    {
        self.max_top_left
    }

    /// The least size.
    pub fn min_size(&self) -> (r: CoordPair)
        ensures
            r == self.min_size_spec(),
    {
        self.min_size
    }

    /// The greatest size.
    pub fn max_size(&self) -> (r: CoordPair)
        ensures
            r == self.max_size_spec(),
    {
        self.max_size
    }

    /// The configuration of the counts of biome regions.
    pub fn biome_layer_config(&self) -> (r: &region::Config)
        ensures
            *r == self.biome_layer_spec(),
    {
        &self.biome_layer_config
    }
}

impl Default for Config {
    fn default() -> (r: Config)
        ensures
            r.min_top_left_spec() == (CoordPair { y: 0u16, x: 0u16 }),
            r.max_top_left_spec() == (CoordPair { y: 10_000u16, x: 10_000u16 }),
            r.min_size_spec() == (CoordPair { y: 950u16, x: 950u16 }),
            r.max_size_spec() == (CoordPair { y: 1050u16, x: 1050u16 }),
    {
        Config::new()
    }
}

/// The ground drawn for a point depends on its biome only, which writing the
/// ground layer keeps.
pub proof fn lemma_grounds_follow_biomes(distr: GroundLayerDistr)
    ensures
        draws_outside_of(&GroundLayer, &distr),
{
    assert forall|m1: GameMap, m2: GameMap, p: CoordPair, v: crate::domain::matter::Ground|
        #![trigger GroundLayer.keeps(m1, m2), distr.admits(m1, p, v)]
        m1.wf() && GroundLayer.keeps(m1, m2) && distr.admits(m1, p, v) implies distr.admits(m2, p, v) by {
        assert(m1.rect_spec().contains(p));
    }
}

/// The generator of the map: the configuration, the map made with its drawn
/// rectangle, and the generators of the biome and ground layers.
#[derive(Debug)]
pub struct Generator {
    config: Config,
    map: GameMap,
    biome_layer_gen: region::Generator,
    ground_layer_gen: pointwise::Generator,
}

impl Generator {
    /// The map being generated.
    pub closed spec fn map_spec(self) -> GameMap {
        self.map
    }

    /// The number of biome regions.
    pub closed spec fn region_count_spec(self) -> usize {
        self.biome_layer_gen.region_count_spec()
    }

    /// A generator of `map`, with `biome_layer_gen` for its biome regions.
    pub fn new(config: Config, map: GameMap, biome_layer_gen: region::Generator) -> (r: Generator)
        ensures
            r.map_spec() == map,
            r.region_count_spec() == biome_layer_gen.region_count_spec(),
    {
        Generator { config, map, biome_layer_gen, ground_layer_gen: pointwise::Generator::new() }
    }

    /// The map being generated.
    pub fn map(&self) -> (r: &GameMap)
        ensures
            *r == self.map_spec(),
    {
        &self.map
    }

    /// The number of biome regions.
    pub fn region_count(&self) -> (r: usize)
        ensures
            r == self.region_count_spec(),
    {
        self.biome_layer_gen.region_count()
    }

    /// How many steps generating the map takes: those of the biome layer and
    /// those of the ground layer.
    pub fn progress_goal(&self) -> (r: usize)
        requires
            self.map_spec().wf(),
            self.region_count_spec() <= self.map_spec().rect_spec().size.x * self.map_spec().rect_spec().size.y,
            3 * (self.map_spec().rect_spec().size.x * self.map_spec().rect_spec().size.y) + self.region_count_spec() + 3
                <= usize::MAX,
        ensures
            r == 3 * (self.map_spec().rect_spec().size.x * self.map_spec().rect_spec().size.y)
                + self.region_count_spec() + 3,
    {
        self.biome_layer_gen.progress_goal(&self.map) + self.ground_layer_gen.progress_goal(&self.map)
    }

    /// Grows the biome layer by regions, then fills in the ground of each
    /// point from its biome; gives back the map.
    pub fn execute(self, rng: &mut PickedReproducibleRng) -> (r: Result<GameMap, Error>)
        requires
            self.map_spec().wf(),
            1 <= self.region_count_spec() <= self.map_spec().rect_spec().size.x * self.map_spec().rect_spec().size.y,
        ensures
            r is Ok,
            r matches Ok(m) ==> m.wf() && m.rect_spec() == self.map_spec().rect_spec(),
            r matches Ok(m) ==> forall|p: CoordPair|
                #[trigger] m.rect_spec().contains(p) ==> m.ground_at(p) == ground_of(m.biome_at(p)),
            r matches Ok(m) ==> exists|data: Seq<Biome>|
                data.len() == self.region_count_spec() && forall|p: CoordPair|
                    #[trigger] m.rect_spec().contains(p) ==> filled(&BiomeLayer, m, data, p),
    {
        let Generator { config, mut map, biome_layer_gen, ground_layer_gen } = self;
        let mut biome_distr = config.biome_distr;
        let mut collector = region::NopCollector;
        proof {
            assert(accepts_anywhere(&BiomeLayer, map.rect_spec()));
        }
        match biome_layer_gen.execute(&BiomeLayer, &mut biome_distr, &mut map, rng, &mut collector) {
            Ok(()) => {},
            Err(e) => return Err(Error::BiomeLayer(e)),
        }
        proof {
            lemma_grounds_follow_biomes(config.ground_layer_distr);
        }
        let ghost before_grounds = map;
        let ghost data = choose|data: Seq<Biome>|
            data.len() == biome_layer_gen.region_count_spec() && forall|p: CoordPair|
                #[trigger] before_grounds.rect_spec().contains(p) ==> filled(&BiomeLayer, before_grounds, data, p);
        proof {
            assert(never_fails(&GroundLayer, &config.ground_layer_distr, map.rect_spec()));
        }
        match ground_layer_gen.execute(&GroundLayer, &config.ground_layer_distr, &mut map, rng) {
            Ok(()) => {},
            Err(e) => return Err(Error::GroundLayer(e)),
        }
        proof {
            assert forall|p: CoordPair| #[trigger] map.rect_spec().contains(p) implies map.ground_at(p) == ground_of(
                map.biome_at(p),
            ) by {
                assert(before_grounds.rect_spec().contains(p));
                assert(config.ground_layer_distr.admits(map, p, GroundLayer.value_at(map, p)));
            }
            assert forall|p: CoordPair| #[trigger] map.rect_spec().contains(p) implies filled(&BiomeLayer, map, data, p) by {
                assert(before_grounds.rect_spec().contains(p));
                assert(filled(&BiomeLayer, before_grounds, data, p));
                assert(map.biome_at(p) == before_grounds.biome_at(p));
            }
        }
        Ok(map)
    }
}

} // verus!
