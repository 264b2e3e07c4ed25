//! Generation of games: reproducible randomness, the distributions of events,
//! biomes and thedes, the layers of the map and how they are filled in, and
//! the progress of it all.
use vstd::prelude::*;
use crate::gen::random::Seed;

pub mod random;
pub mod event;
pub mod graph;
pub mod layer;
pub mod pointwise;
pub mod region;
pub mod lands;
pub mod sparse_points;
pub mod thede;
pub mod matter;
pub mod progress;
pub mod sm;
pub mod structure;
pub mod map;
pub mod game;

verus! {

/// The configuration of generation: that of the game, and the seed of the
/// random numbers.
#[derive(Debug)]
pub struct Config {
    game: game::Config,
    seed: Seed,
}

impl Config {
    /// The configuration of the game.
    pub closed spec fn game_spec(self) -> game::Config {
        self.game
    }

    /// The seed.
    pub closed spec fn seed_spec(self) -> Seed {
        self.seed
    }

    /// The default configuration, with seed 1.
    pub fn new() -> (r: Config)
        ensures
            r.seed_spec() == 1,
    {
        Config { game: game::Config::new(), seed: 1 }
    }

    /// This configuration with `config` for the game.
    pub fn with_game(self, config: game::Config) -> (r: Config)
        ensures
            r.game_spec() == config,
            r.seed_spec() == self.seed_spec(),
    {
        Config { game: config, ..self }
    }

    /// This configuration with `seed`.
    pub fn with_seed(self, seed: Seed) -> (r: Config)
        ensures
            r.seed_spec() == seed,
            r.game_spec() == self.game_spec(),
    {
        Config { seed, ..self }
    }

    /// The seed.
    pub fn seed(&self) -> (r: Seed)
        ensures
            r == self.seed_spec(),
    {
        self.seed
    }

    /// The configuration of the game.
    pub fn game(&self) -> (r: &game::Config)
        ensures
            *r == self.game_spec(),
    {
        &self.game
    }
}

impl Default for Config {
    fn default() -> (r: Config)
        ensures
            r.seed_spec() == 1,
    {
        Config::new()
    }
}

} // verus!
