//! The configuration of the structures of thedes: how many houses, as a ratio,
//! and how large.
use vstd::prelude::*;
use crate::domain::geometry::CoordPair;
use crate::ratio::Ratio;

verus! {

/// Why generating structures failed: it cannot fail.
pub type GenError = std::convert::Infallible;

/// Why a structure configuration was refused.
#[derive(Debug, Clone, Copy, PartialEq)]
pub enum ConfigError {
    /// The house count ratio is below the least allowed.
    HouseRatioTooSmall(Ratio),
    /// The house count ratio is above the greatest allowed.
    HouseRatioTooBig(Ratio),
    /// The house size is below the least allowed.
    HouseSizeTooSmall(CoordPair),
    /// The house size is above the greatest allowed.
    HouseSizeTooBig(CoordPair),
}

/// Whether `a` comes before `b`, by row and then by column.
pub open spec fn pair_lt(a: CoordPair, b: CoordPair) -> bool {
    a.y < b.y || (a.y == b.y && a.x < b.x)
}

/// Whether `a` comes before `b`, by row and then by column.
fn pair_less(a: CoordPair, b: CoordPair) -> (r: bool)
    ensures
        r == pair_lt(a, b),
{
    a.y < b.y || (a.y == b.y && a.x < b.x)
}

/// The least house count ratio allowed: 1/100.
pub open spec fn min_ratio_spec(r: Ratio) -> bool {
    r.numer_spec() == 1 && r.denom_spec() == 100
}

/// The greatest house count ratio allowed: 1/1.
pub open spec fn max_ratio_spec(r: Ratio) -> bool {
    r.numer_spec() == 1 && r.denom_spec() == 1
}

/// How many houses, as ratios, and how large, between bounds.
#[derive(Debug, Clone)]
pub struct Config {
    min_house_count: Ratio,
    max_house_count: Ratio,
    min_house_size: CoordPair,
    max_house_size: CoordPair,
}

impl Config {
    /// The least house count ratio.
    pub closed spec fn min_house_count_spec(self) -> Ratio {
        self.min_house_count
    }

    /// The greatest house count ratio.
    pub closed spec fn max_house_count_spec(self) -> Ratio {
        self.max_house_count
    }

    /// The least house size.
    pub closed spec fn min_house_size_spec(self) -> CoordPair {
        self.min_house_size
    }

    /// The greatest house size.
    pub closed spec fn max_house_size_spec(self) -> CoordPair {
        self.max_house_size
    }

    /// The least house count ratio allowed: 1/100.
    pub fn min_house_count_ratio() -> (r: Ratio)
        ensures
            min_ratio_spec(r),
    {
        Ratio::new(1, 100)
    }

    /// The greatest house count ratio allowed: 1/1.
    pub fn max_house_count_ratio() -> (r: Ratio)
        ensures
            max_ratio_spec(r),
    {
        Ratio::new(1, 1)
    }

    /// The least house size allowed: 5 by 5.
    pub fn min_house_size_limit() -> (r: CoordPair)
        ensures
            r == (CoordPair { y: 5, x: 5 }),
    {
        CoordPair { y: 5, x: 5 }
    }

    /// The greatest house size allowed: 50 by 50.
    pub fn max_house_size_limit() -> (r: CoordPair)
        ensures
            r == (CoordPair { y: 50, x: 50 }),
    {
        CoordPair { y: 50, x: 50 }
    }

    /// The configuration with ratios 1/20 to 1/15 and sizes 5 by 5 to 20 by 20.
    pub fn new() -> (r: Config)
        ensures
            r.min_house_count_spec().numer_spec() == 1 && r.min_house_count_spec().denom_spec() == 20,
            r.max_house_count_spec().numer_spec() == 1 && r.max_house_count_spec().denom_spec() == 15,
            r.min_house_size_spec() == (CoordPair { y: 5, x: 5 }),
            r.max_house_size_spec() == (CoordPair { y: 20, x: 20 }),
    {
        Config {
            min_house_count: Ratio::new(1, 20),
            max_house_count: Ratio::new(1, 15),
            min_house_size: Config::min_house_size_limit(),
            max_house_size: CoordPair { y: 20, x: 20 },
        }
    }

    /// Checks a house count ratio against the allowed bounds.
    fn check_ratio(ratio: Ratio) -> (r: Result<(), ConfigError>)
        ensures
            r == ratio_check(ratio),
    {
        if ratio.lt(&Config::min_house_count_ratio()) {
            return Err(ConfigError::HouseRatioTooSmall(ratio));
        }
        if ratio.gt(&Config::max_house_count_ratio()) {
            return Err(ConfigError::HouseRatioTooBig(ratio));
        }
        Ok(())
    }

    /// Checks a house size against the allowed bounds.
    fn check_size(size: CoordPair) -> (r: Result<(), ConfigError>)
        ensures
            r == size_check(size),
    {
        if pair_less(size, Config::min_house_size_limit()) {
            return Err(ConfigError::HouseSizeTooSmall(size));
        }
        if pair_less(Config::max_house_size_limit(), size) {
            return Err(ConfigError::HouseSizeTooBig(size));
        }
        Ok(())
    }

    /// This configuration with `ratio` as least house count ratio, unless it
    /// is out of the allowed bounds.
    pub fn with_min_house_count(self, ratio: Ratio) -> (r: Result<Config, ConfigError>)
        ensures
            match r {
                Ok(c) => ratio_check(ratio) is Ok && c.min_house_count_spec() == ratio && c.max_house_count_spec()
                    == self.max_house_count_spec() && c.min_house_size_spec() == self.min_house_size_spec()
                    && c.max_house_size_spec() == self.max_house_size_spec(),
                Err(e) => ratio_check(ratio) == Err::<(), ConfigError>(e),
            },
    {
        match Config::check_ratio(ratio) {
            Ok(()) => Ok(Config { min_house_count: ratio, ..self }),
            Err(e) => Err(e),
        }
    }

    /// This configuration with `ratio` as greatest house count ratio, unless
    /// it is out of the allowed bounds.
    pub fn with_max_house_count(self, ratio: Ratio) -> (r: Result<Config, ConfigError>)
        ensures
            match r {
                Ok(c) => ratio_check(ratio) is Ok && c.max_house_count_spec() == ratio && c.min_house_count_spec()
                    == self.min_house_count_spec() && c.min_house_size_spec() == self.min_house_size_spec()
                    && c.max_house_size_spec() == self.max_house_size_spec(),
                Err(e) => ratio_check(ratio) == Err::<(), ConfigError>(e),
            },
    {
        match Config::check_ratio(ratio) {
            Ok(()) => Ok(Config { max_house_count: ratio, ..self }),
            Err(e) => Err(e),
        }
    }

    /// This configuration with `size` as least house size, unless it is out
    /// of the allowed bounds.
    pub fn with_min_house_size(self, size: CoordPair) -> (r: Result<Config, ConfigError>)
        ensures
            match r {
                Ok(c) => size_check(size) is Ok && c.min_house_size_spec() == size && c.max_house_size_spec()
                    == self.max_house_size_spec() && c.min_house_count_spec() == self.min_house_count_spec()
                    && c.max_house_count_spec() == self.max_house_count_spec(),
                Err(e) => size_check(size) == Err::<(), ConfigError>(e),
            },
    {
        match Config::check_size(size) {
            Ok(()) => Ok(Config { min_house_size: size, ..self }),
            Err(e) => Err(e),
        }
    }

    /// This configuration with `size` as greatest house size, unless it is
    /// out of the allowed bounds.
    pub fn with_max_house_size(self, size: CoordPair) -> (r: Result<Config, ConfigError>)
        ensures
            match r {
                Ok(c) => size_check(size) is Ok && c.max_house_size_spec() == size && c.min_house_size_spec()
                    == self.min_house_size_spec() && c.min_house_count_spec() == self.min_house_count_spec()
                    && c.max_house_count_spec() == self.max_house_count_spec(),
                Err(e) => size_check(size) == Err::<(), ConfigError>(e),
            },
    {
        match Config::check_size(size) {
            Ok(()) => Ok(Config { max_house_size: size, ..self }),
            Err(e) => Err(e),
        }
    }

    /// The least house count ratio.
    pub fn min_house_count(&self) -> (r: Ratio)
        ensures
            r == self.min_house_count_spec(),
    {
        self.min_house_count
    }

    /// The greatest house count ratio.
    pub fn max_house_count(&self) -> (r: Ratio)
        ensures
            r == self.max_house_count_spec(),
    {
        self.max_house_count
    }

    /// The least house size.
    pub fn min_house_size(&self) -> (r: CoordPair)
        ensures
            r == self.min_house_size_spec(),
    {
        self.min_house_size
    }

    /// The greatest house size.
    pub fn max_house_size(&self) -> (r: CoordPair)
        ensures
            r == self.max_house_size_spec(),
    {
        self.max_house_size
    }
}

/// The verdict on a house count ratio: below 1/100 is too small, above 1/1 too big.
pub open spec fn ratio_check(ratio: Ratio) -> Result<(), ConfigError> {
    if ratio.numer_spec() * 100 < ratio.denom_spec() {
        Err(ConfigError::HouseRatioTooSmall(ratio))
    } else if ratio.numer_spec() > ratio.denom_spec() {
        Err(ConfigError::HouseRatioTooBig(ratio))
    } else {
        Ok(())
    }
}

/// The verdict on a house size: before 5 by 5 is too small, after 50 by 50 too
/// big, by row and then by column.
pub open spec fn size_check(size: CoordPair) -> Result<(), ConfigError> {
    if pair_lt(size, CoordPair { y: 5, x: 5 }) {
        Err(ConfigError::HouseSizeTooSmall(size))
    } else if pair_lt(CoordPair { y: 50, x: 50 }, size) {
        Err(ConfigError::HouseSizeTooBig(size))
    } else {
        Ok(())
    }
}

impl Default for Config {
    fn default() -> (r: Config)
        ensures
            r.min_house_count_spec().numer_spec() == 1 && r.min_house_count_spec().denom_spec() == 20,
            r.max_house_count_spec().numer_spec() == 1 && r.max_house_count_spec().denom_spec() == 15,
            r.min_house_size_spec() == (CoordPair { y: 5, x: 5 }),
            r.max_house_size_spec() == (CoordPair { y: 20, x: 20 }),
    {
        Config::new()
    }
}

} // verus!
