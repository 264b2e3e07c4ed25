//! Generation of a game: its map, then its player.
use vstd::prelude::*;

verus! {

/// The configuration of a game: that of its map.
#[derive(Debug, Clone)]
pub struct Config {
    map_config: crate::gen::map::Config,
}

impl Config {
    /// The configuration of the map.
    pub closed spec fn map_config_spec(self) -> crate::gen::map::Config {
        self.map_config
    }

    /// The default configuration.
    pub fn new() -> (r: Config)
        ensures
            r.map_config_spec().min_top_left_spec() == (crate::domain::geometry::CoordPair { y: 0u16, x: 0u16 }),
            r.map_config_spec().max_top_left_spec() == (crate::domain::geometry::CoordPair { y: 10_000u16, x: 10_000u16 }),
            r.map_config_spec().min_size_spec() == (crate::domain::geometry::CoordPair { y: 950u16, x: 950u16 }),
            r.map_config_spec().max_size_spec() == (crate::domain::geometry::CoordPair { y: 1050u16, x: 1050u16 }),
    {
        Config { map_config: crate::gen::map::Config::new() }
    }

    /// This configuration with `map_config` for the map.
    pub fn with_map(self, map_config: crate::gen::map::Config) -> (r: Config)
        ensures
            r.map_config_spec() == map_config,
    {
        Config { map_config }
    }

    /// The configuration of the map.
    pub fn map_config(&self) -> (r: &crate::gen::map::Config)
        ensures
            *r == self.map_config_spec(),
    {
        &self.map_config
    }
}

impl Default for Config {
    fn default() -> (r: Config) {
        Config::new()
    }
}

/// The generator of a game: that of its map.
#[derive(Debug)]
pub struct Generator {
    map_gen: crate::gen::map::Generator,
}

impl Generator {
    /// The generator of the map.
    pub closed spec fn map_gen_spec(self) -> crate::gen::map::Generator {
        self.map_gen
    }

    /// The generator of a game with `map_gen` for its map.
    pub fn new(map_gen: crate::gen::map::Generator) -> (r: Generator)
        ensures
            r.map_gen_spec() == map_gen,
    {
        Generator { map_gen }
    }

    /// How many steps generating the game takes: those of the map, and one
    /// for the player.
    pub fn progress_goal(&self) -> (r: usize)
        requires
            self.map_gen_spec().map_spec().wf(),
            self.map_gen_spec().region_count_spec() <= self.map_gen_spec().map_spec().rect_spec().size.x
                * self.map_gen_spec().map_spec().rect_spec().size.y,
            3 * (self.map_gen_spec().map_spec().rect_spec().size.x * self.map_gen_spec().map_spec().rect_spec().size.y)
                + self.map_gen_spec().region_count_spec() + 4 <= usize::MAX,
        ensures
            r == 3 * (self.map_gen_spec().map_spec().rect_spec().size.x
                * self.map_gen_spec().map_spec().rect_spec().size.y) + self.map_gen_spec().region_count_spec() + 4,
    {
        self.map_gen.progress_goal() + 1
    }

    /// The generator of the map.
    pub fn map_gen(&self) -> (r: &crate::gen::map::Generator)
        ensures
            *r == self.map_gen_spec(),
    {
        &self.map_gen
    }

    /// The generator of the map, taken out.
    pub fn into_map_gen(self) -> (r: crate::gen::map::Generator)
        ensures
            r == self.map_gen_spec(),
    {
        self.map_gen
    }
}

} // verus!
