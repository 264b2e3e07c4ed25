//! The game's calendar: ticks, days, seasons, moon phases and the parts of a day.
use vstd::prelude::*;
use crate::ratio::Ratio;

verus! {

/// A part of the day.
#[derive(Debug, Clone, Copy, PartialEq, Eq, Structural, PartialOrd, Ord, Hash)]
pub enum CircadianCycleStep {
    Sunrise,
    DayLight,
    Sunset,
    Night,
}

/// How long, in eighths of an hour of sorts, a part of the day lasts at the start of `season`.
pub open spec fn starting_duration_spec(step: CircadianCycleStep, season: Season) -> int {
    match (step, season) {
        (CircadianCycleStep::Sunrise, Season::Ware) => 7,
        (CircadianCycleStep::DayLight, Season::Ware) => 17,
        (CircadianCycleStep::Sunset, Season::Ware) => 8,
        (CircadianCycleStep::Night, Season::Ware) => 16,
        (CircadianCycleStep::Sunrise, Season::Summer) => 4,
        (CircadianCycleStep::DayLight, Season::Summer) => 23,
        (CircadianCycleStep::Sunset, Season::Summer) => 10,
        (CircadianCycleStep::Night, Season::Summer) => 11,
        (CircadianCycleStep::Sunrise, Season::Harvest) => 8,
        (CircadianCycleStep::DayLight, Season::Harvest) => 16,
        (CircadianCycleStep::Sunset, Season::Harvest) => 7,
        (CircadianCycleStep::Night, Season::Harvest) => 17,
        (CircadianCycleStep::Sunrise, Season::Winter) => 9,
        (CircadianCycleStep::DayLight, Season::Winter) => 10,
        (CircadianCycleStep::Sunset, Season::Winter) => 4,
        (CircadianCycleStep::Night, Season::Winter) => 25,
    }
}

/// At the start of every season the four parts of the day fill the day's
/// forty-eight parts; summer daylight is the longest part of its day and the
/// longest daylight of the year, summer sunrise the shortest part of its day;
/// winter night is the longest part of its day and the longest night of the
/// year, winter sunset the shortest part of its day; harvest mirrors ware,
/// its sunrise and daylight lasting as ware's sunset and night and the other
/// way round.
pub proof fn law_starting_durations(season: Season, step: CircadianCycleStep)
    ensures
        starting_duration_spec(CircadianCycleStep::Sunrise, season) + starting_duration_spec(
            CircadianCycleStep::DayLight,
            season,
        ) + starting_duration_spec(CircadianCycleStep::Sunset, season) + starting_duration_spec(
            CircadianCycleStep::Night,
            season,
        ) == 48,
        step != CircadianCycleStep::DayLight ==> starting_duration_spec(step, Season::Summer) < starting_duration_spec(
            CircadianCycleStep::DayLight,
            Season::Summer,
        ),
        season != Season::Summer ==> starting_duration_spec(CircadianCycleStep::DayLight, season)
            < starting_duration_spec(CircadianCycleStep::DayLight, Season::Summer),
        step != CircadianCycleStep::Sunrise ==> starting_duration_spec(CircadianCycleStep::Sunrise, Season::Summer)
            < starting_duration_spec(step, Season::Summer),
        step != CircadianCycleStep::Night ==> starting_duration_spec(step, Season::Winter) < starting_duration_spec(
            CircadianCycleStep::Night,
            Season::Winter,
        ),
        season != Season::Winter ==> starting_duration_spec(CircadianCycleStep::Night, season)
            < starting_duration_spec(CircadianCycleStep::Night, Season::Winter),
        step != CircadianCycleStep::Sunset ==> starting_duration_spec(CircadianCycleStep::Sunset, Season::Winter)
            < starting_duration_spec(step, Season::Winter),
        starting_duration_spec(step, Season::Harvest) == starting_duration_spec(
            step.next_spec().next_spec(),
            Season::Ware,
        ),
{
}

/// On the first day of each season the parts of the day come, through the
/// forty-eight parts of a day, at these bounds: ware at 7, 24 and 32; summer
/// at 4, 27 and 37; harvest at 8, 24 and 31; winter at 9, 19 and 23.
pub proof fn law_first_days(c: int)
    requires
        0 <= c < 48,
    ensures
        step_for_clock_spec(0, c, 48) == if c < 7 {
            CircadianCycleStep::Sunrise
        } else if c < 24 {
            CircadianCycleStep::DayLight
        } else if c < 32 {
            CircadianCycleStep::Sunset
        } else {
            CircadianCycleStep::Night
        },
        step_for_clock_spec(14, c, 48) == if c < 4 {
            CircadianCycleStep::Sunrise
        } else if c < 27 {
            CircadianCycleStep::DayLight
        } else if c < 37 {
            CircadianCycleStep::Sunset
        } else {
            CircadianCycleStep::Night
        },
        step_for_clock_spec(27, c, 48) == if c < 8 {
            CircadianCycleStep::Sunrise
        } else if c < 24 {
            CircadianCycleStep::DayLight
        } else if c < 31 {
            CircadianCycleStep::Sunset
        } else {
            CircadianCycleStep::Night
        },
        step_for_clock_spec(41, c, 48) == if c < 9 {
            CircadianCycleStep::Sunrise
        } else if c < 19 {
            CircadianCycleStep::DayLight
        } else if c < 23 {
            CircadianCycleStep::Sunset
        } else {
            CircadianCycleStep::Night
        },
{
    assert(day_of_season_spec(0) == 0 && day_of_season_spec(14) == 0);
    assert(day_of_season_spec(27) == 0 && day_of_season_spec(41) == 0);
    assert(cumulative_in_day_spec(CircadianCycleStep::Night, 0) == 48);
    assert(cumulative_in_day_spec(CircadianCycleStep::Night, 14) == 48);
    assert(cumulative_in_day_spec(CircadianCycleStep::Night, 27) == 48);
    assert(Season::for_day_spec(41) == Season::Winter);
    assert(duration_in_day_spec(CircadianCycleStep::Sunrise, 41) == 9);
    assert(duration_in_day_spec(CircadianCycleStep::DayLight, 41) == 10);
    assert(duration_in_day_spec(CircadianCycleStep::Sunset, 41) == 4);
    assert(duration_in_day_spec(CircadianCycleStep::Night, 41) == 25);
    assert(cumulative_in_day_spec(CircadianCycleStep::Night, 41) == 48);
}

/// How far into its season day `day_of_year` is.
pub open spec fn day_of_season_spec(day_of_year: int) -> int {
    let season = Season::for_day_spec(day_of_year);
    day_of_year + season.duration_spec() - season.cumulative_spec()
}

/// How long a part of the day lasts on day `day_of_year`: the durations at the
/// start of its season and of the next, weighed by how far into the season the
/// day is.
pub open spec fn duration_in_day_spec(step: CircadianCycleStep, day_of_year: int) -> int {
    let season = Season::for_day_spec(day_of_year);
    let sd = season.duration_spec();
    let dos = day_of_season_spec(day_of_year);
    (starting_duration_spec(step, season) * (sd - dos) + starting_duration_spec(step, season.next_spec()) * dos) / sd
}

/// How long the day has lasted at the end of `step`, on day `day_of_year`.
pub open spec fn cumulative_in_day_spec(step: CircadianCycleStep, day_of_year: int) -> int {
    let a = duration_in_day_spec(CircadianCycleStep::Sunrise, day_of_year);
    let b = duration_in_day_spec(CircadianCycleStep::DayLight, day_of_year);
    let c = duration_in_day_spec(CircadianCycleStep::Sunset, day_of_year);
    let d = duration_in_day_spec(CircadianCycleStep::Night, day_of_year);
    match step {
        CircadianCycleStep::Sunrise => a,
        CircadianCycleStep::DayLight => a + b,
        CircadianCycleStep::Sunset => a + b + c,
        CircadianCycleStep::Night => a + b + c + d,
    }
}

/// The part of day `day_of_year` that the fraction `clock_step / clock_total` of
/// the day falls in.
pub open spec fn step_for_clock_spec(day_of_year: int, clock_step: int, clock_total: int) -> CircadianCycleStep {
    let total = cumulative_in_day_spec(CircadianCycleStep::Night, day_of_year);
    if clock_step * total < cumulative_in_day_spec(CircadianCycleStep::Sunrise, day_of_year) * clock_total {
        CircadianCycleStep::Sunrise
    } else if clock_step * total < cumulative_in_day_spec(CircadianCycleStep::DayLight, day_of_year) * clock_total {
        CircadianCycleStep::DayLight
    } else if clock_step * total < cumulative_in_day_spec(CircadianCycleStep::Sunset, day_of_year) * clock_total {
        CircadianCycleStep::Sunset
    } else {
        CircadianCycleStep::Night
    }
}

impl CircadianCycleStep {
    /// The part of the day that follows.
    pub open spec fn next_spec(self) -> CircadianCycleStep {
        match self {
            CircadianCycleStep::Sunrise => CircadianCycleStep::DayLight,
            CircadianCycleStep::DayLight => CircadianCycleStep::Sunset,
            CircadianCycleStep::Sunset => CircadianCycleStep::Night,
            CircadianCycleStep::Night => CircadianCycleStep::Sunrise,
        }
    }

    /// The part of the day that precedes.
    pub open spec fn prev_spec(self) -> CircadianCycleStep {
        match self {
            CircadianCycleStep::Sunrise => CircadianCycleStep::Night,
            CircadianCycleStep::DayLight => CircadianCycleStep::Sunrise,
            CircadianCycleStep::Sunset => CircadianCycleStep::DayLight,
            CircadianCycleStep::Night => CircadianCycleStep::Sunset,
        }
    }

    /// Going to the next part of the day and back, or back and then on, ends
    /// where it started.
    pub proof fn law_next_prev(self)
        ensures
            self.next_spec().prev_spec() == self,
            self.prev_spec().next_spec() == self,
    {
    }

    /// The part of the day that follows.
    pub fn next(self) -> (r: CircadianCycleStep)
        ensures
            r == self.next_spec(),
    {
        match self {
            CircadianCycleStep::Sunrise => CircadianCycleStep::DayLight,
            CircadianCycleStep::DayLight => CircadianCycleStep::Sunset,
            CircadianCycleStep::Sunset => CircadianCycleStep::Night,
            CircadianCycleStep::Night => CircadianCycleStep::Sunrise,
        }
    }

    /// The part of the day that precedes.
    pub fn prev(self) -> (r: CircadianCycleStep)
        ensures
            r == self.prev_spec(),
    {
        match self {
            CircadianCycleStep::Sunrise => CircadianCycleStep::Night,
            CircadianCycleStep::DayLight => CircadianCycleStep::Sunrise,
            CircadianCycleStep::Sunset => CircadianCycleStep::DayLight,
            CircadianCycleStep::Night => CircadianCycleStep::Sunset,
        }
    }

    fn starting_duration(self, season: Season) -> (r: u64)
        ensures
            r == starting_duration_spec(self, season),
            4 <= r <= 25,
    {
        match (self, season) {
            (CircadianCycleStep::Sunrise, Season::Ware) => 7,
            (CircadianCycleStep::DayLight, Season::Ware) => 17,
            (CircadianCycleStep::Sunset, Season::Ware) => 8,
            (CircadianCycleStep::Night, Season::Ware) => 16,
            (CircadianCycleStep::Sunrise, Season::Summer) => 4,
            (CircadianCycleStep::DayLight, Season::Summer) => 23,
            (CircadianCycleStep::Sunset, Season::Summer) => 10,
            (CircadianCycleStep::Night, Season::Summer) => 11,
            (CircadianCycleStep::Sunrise, Season::Harvest) => 8,
            (CircadianCycleStep::DayLight, Season::Harvest) => 16,
            (CircadianCycleStep::Sunset, Season::Harvest) => 7,
            (CircadianCycleStep::Night, Season::Harvest) => 17,
            (CircadianCycleStep::Sunrise, Season::Winter) => 9,
            (CircadianCycleStep::DayLight, Season::Winter) => 10,
            (CircadianCycleStep::Sunset, Season::Winter) => 4,
            (CircadianCycleStep::Night, Season::Winter) => 25,
        }
    }

    fn duration_in_day_of_year(self, day_of_year: u64) -> (r: u64)
        requires
            day_of_year < 54,
        ensures
            r == duration_in_day_spec(self, day_of_year as int),
            4 <= r <= 25,
    {
        let season = Season::for_day_of_year(day_of_year);
        let season_duration = season.duration();
        let next_season = season.next();
        let starting = self.starting_duration(season);
        let ending = self.starting_duration(next_season);
        let day_of_season = day_of_year + season.duration() - season.year_cumulative_duration();
        assert(day_of_season <= season_duration);
        assert(starting * (season_duration - day_of_season) <= 25 * 14) by (nonlinear_arith)
            requires
                starting <= 25,
                season_duration - day_of_season <= 14,
                day_of_season <= season_duration,
        ;
        assert(ending * day_of_season <= 25 * 14) by (nonlinear_arith)
            requires
                ending <= 25,
                day_of_season <= 14,
        ;
        let r = (starting * (season_duration - day_of_season) + ending * day_of_season) / season_duration;
        assert(r <= 25) by (nonlinear_arith)
            requires
                r == (starting * (season_duration - day_of_season) + ending * day_of_season) / (season_duration as int),
                starting <= 25,
                ending <= 25,
                day_of_season <= season_duration,
                season_duration >= 1,
        {
            assert(starting * (season_duration - day_of_season) + ending * day_of_season <= 25 * (season_duration - day_of_season) + 25 * day_of_season);
        }
        assert(r >= 4) by (nonlinear_arith)
            requires
                r == (starting * (season_duration - day_of_season) + ending * day_of_season) / (season_duration as int),
                starting >= 4,
                ending >= 4,
                day_of_season <= season_duration,
                season_duration >= 1,
        {
            assert(starting * (season_duration - day_of_season) + ending * day_of_season >= 4 * (season_duration - day_of_season) + 4 * day_of_season);
        }
        r
    }

    fn cumul_dur_in_day_of_year(self, day_of_year: u64) -> (r: u64)
        requires
            day_of_year < 54,
        ensures
            r == cumulative_in_day_spec(self, day_of_year as int),
            r <= 100,
            self == CircadianCycleStep::Night ==> r >= 16,
    {
        let a = CircadianCycleStep::Sunrise.duration_in_day_of_year(day_of_year);
        match self {
            CircadianCycleStep::Sunrise => a,
            CircadianCycleStep::DayLight => a + CircadianCycleStep::DayLight.duration_in_day_of_year(day_of_year),
            CircadianCycleStep::Sunset => a + CircadianCycleStep::DayLight.duration_in_day_of_year(day_of_year)
                + CircadianCycleStep::Sunset.duration_in_day_of_year(day_of_year),
            CircadianCycleStep::Night => a + CircadianCycleStep::DayLight.duration_in_day_of_year(day_of_year)
                + CircadianCycleStep::Sunset.duration_in_day_of_year(day_of_year)
                + CircadianCycleStep::Night.duration_in_day_of_year(day_of_year),
        }
    }

    /// How long the whole of day `day_of_year` lasts.
    fn total_for_day_of_year(day_of_year: u64) -> (r: u64)
        requires
            day_of_year < 54,
        ensures
            r == cumulative_in_day_spec(CircadianCycleStep::Night, day_of_year as int),
            16 <= r <= 100,
    {
        CircadianCycleStep::Night.cumul_dur_in_day_of_year(day_of_year)
    }

    /// The part of day `day_of_year` that the fraction `clock_step / clock_total`
    /// of the day falls in.
    fn for_day_clock(day_of_year: u64, clock_step: u64, clock_total: u64) -> (r: CircadianCycleStep)
        requires
            day_of_year < 54,
            clock_step <= 0x1_0000,
            clock_total <= 0x1_0000,
        ensures
            r == step_for_clock_spec(day_of_year as int, clock_step as int, clock_total as int),
    {
        let total_weights = CircadianCycleStep::Night.cumul_dur_in_day_of_year(day_of_year);
        let sunrise = CircadianCycleStep::Sunrise.cumul_dur_in_day_of_year(day_of_year);
        let day_light = CircadianCycleStep::DayLight.cumul_dur_in_day_of_year(day_of_year);
        let sunset = CircadianCycleStep::Sunset.cumul_dur_in_day_of_year(day_of_year);
        assert(clock_step * total_weights <= 0x1_0000 * 100) by (nonlinear_arith)
            requires
                clock_step <= 0x1_0000,
                total_weights <= 100,
        ;
        assert(sunrise * clock_total <= 100 * 0x1_0000 && day_light * clock_total <= 100 * 0x1_0000 && sunset
            * clock_total <= 100 * 0x1_0000) by (nonlinear_arith)
            requires
                clock_total <= 0x1_0000,
                sunrise <= 100,
                day_light <= 100,
                sunset <= 100,
        ;
        let scaled = clock_step * total_weights;
        if scaled < sunrise * clock_total {
            CircadianCycleStep::Sunrise
        } else if scaled < day_light * clock_total {
            CircadianCycleStep::DayLight
        } else if scaled < sunset * clock_total {
            CircadianCycleStep::Sunset
        } else {
            CircadianCycleStep::Night
        }
    }
}

impl CircadianCycleStep {
    /// The part of day `day_of_year` that the fraction `clock_day_ratio` of
    /// the day falls in. The products it compares must fit in a `u64`, the
    /// later ones only where the earlier comparisons did not decide.
    pub fn for_day_of_year(day_of_year: u64, clock_day_ratio: Ratio) -> (r: CircadianCycleStep)
        requires
            day_of_year < 54,
            ({
                let d = day_of_year as int;
                let t = clock_day_ratio.numer_spec() * cumulative_in_day_spec(CircadianCycleStep::Night, d);
                let n = clock_day_ratio.denom_spec();
                &&& t <= u64::MAX
                &&& cumulative_in_day_spec(CircadianCycleStep::Sunrise, d) * n <= u64::MAX
                &&& t >= cumulative_in_day_spec(CircadianCycleStep::Sunrise, d) * n ==> cumulative_in_day_spec(
                    CircadianCycleStep::DayLight,
                    d,
                ) * n <= u64::MAX
                &&& t >= cumulative_in_day_spec(CircadianCycleStep::DayLight, d) * n ==> cumulative_in_day_spec(
                    CircadianCycleStep::Sunset,
                    d,
                ) * n <= u64::MAX
            }),
        ensures
            r == step_for_clock_spec(
                day_of_year as int,
                clock_day_ratio.numer_spec() as int,
                clock_day_ratio.denom_spec() as int,
            ),
    {
        let clock_step = clock_day_ratio.numer();
        let clock_total = clock_day_ratio.denom();
        let total_weights = CircadianCycleStep::Night.cumul_dur_in_day_of_year(day_of_year);
        let sunrise = CircadianCycleStep::Sunrise.cumul_dur_in_day_of_year(day_of_year);
        let day_light = CircadianCycleStep::DayLight.cumul_dur_in_day_of_year(day_of_year);
        let sunset = CircadianCycleStep::Sunset.cumul_dur_in_day_of_year(day_of_year);
        let scaled = clock_step * total_weights;
        if scaled < sunrise * clock_total {
            CircadianCycleStep::Sunrise
        } else if scaled < day_light * clock_total {
            CircadianCycleStep::DayLight
        } else if scaled < sunset * clock_total {
            CircadianCycleStep::Sunset
        } else {
            CircadianCycleStep::Night
        }
    }
}

/// A season of the year.
#[derive(Debug, Clone, Copy, PartialEq, Eq, Structural, PartialOrd, Ord, Hash)]
pub enum Season {
    Ware,
    Summer,
    Harvest,
    Winter,
}

impl Default for Season {
    fn default() -> (r: Self)
        ensures
            r == Season::Ware,
    {
        Season::Ware
    }
}

impl Season {
    /// How many days a year lasts.
    pub const YEAR_DURATION: u64 = 54;

    /// How many days the season lasts.
    pub open spec fn duration_spec(self) -> int {
        match self {
            Season::Ware | Season::Harvest => 14,
            Season::Summer | Season::Winter => 13,
        }
    }

    /// How many days of the year have passed at the end of the season.
    pub open spec fn cumulative_spec(self) -> int {
        match self {
            Season::Ware => 14,
            Season::Summer => 27,
            Season::Harvest => 41,
            Season::Winter => 54,
        }
    }

    /// The season that follows.
    pub open spec fn next_spec(self) -> Season {
        match self {
            Season::Ware => Season::Summer,
            Season::Summer => Season::Harvest,
            Season::Harvest => Season::Winter,
            Season::Winter => Season::Ware,
        }
    }

    /// The season that precedes.
    pub open spec fn prev_spec(self) -> Season {
        match self {
            Season::Ware => Season::Winter,
            Season::Summer => Season::Ware,
            Season::Harvest => Season::Summer,
            Season::Winter => Season::Harvest,
        }
    }

    /// Going to the next season and back, or back and then on, ends where it
    /// started.
    pub proof fn law_next_prev(self)
        ensures
            self.next_spec().prev_spec() == self,
            self.prev_spec().next_spec() == self,
    {
    }

    /// The season of day `day_of_year`.
    pub open spec fn for_day_spec(day_of_year: int) -> Season {
        if day_of_year < 14 {
            Season::Ware
        } else if day_of_year < 27 {
            Season::Summer
        } else if day_of_year < 41 {
            Season::Harvest
        } else {
            Season::Winter
        }
    }

    /// Every season, in the order of the year.
    pub fn all() -> (r: [Season; 4])
        ensures
            r@ == seq![Season::Ware, Season::Summer, Season::Harvest, Season::Winter],
    {
        [Season::Ware, Season::Summer, Season::Harvest, Season::Winter]
    }

    /// How many days the season lasts.
    pub fn duration(self) -> (r: u64)
        ensures
            r == self.duration_spec(),
    {
        match self {
            Season::Ware | Season::Harvest => 14,
            Season::Summer | Season::Winter => 13,
        }
    }

    /// How many days of the year have passed at the end of the season: the sum
    /// of the durations of the seasons up to it.
    pub fn year_cumulative_duration(self) -> (r: u64)
        ensures
            r == self.cumulative_spec(),
            r == match self {
                Season::Ware => self.duration_spec(),
                _ => self.prev_spec().cumulative_spec() + self.duration_spec(),
            },
    {
        match self {
            Season::Ware => self.duration(),
            Season::Summer => Season::Ware.duration() + self.duration(),
            Season::Harvest => Season::Ware.duration() + Season::Summer.duration() + self.duration(),
            Season::Winter => Season::Ware.duration() + Season::Summer.duration() + Season::Harvest.duration()
                + self.duration(),
        }
    }

    /// The season that follows.
    pub fn next(self) -> (r: Season)
        ensures
            r == self.next_spec(),
    {
        match self {
            Season::Ware => Season::Summer,
            Season::Summer => Season::Harvest,
            Season::Harvest => Season::Winter,
            Season::Winter => Season::Ware,
        }
    }

    /// The season that precedes.
    pub fn prev(self) -> (r: Season)
        ensures
            r == self.prev_spec(),
    {
        match self {
            Season::Ware => Season::Winter,
            Season::Summer => Season::Ware,
            Season::Harvest => Season::Summer,
            Season::Winter => Season::Harvest,
        }
    }

    /// The season of day `day_of_year`; days past the end of the year count as winter.
    pub fn for_day_of_year(day_of_year: u64) -> (r: Season)
        ensures
            r == Season::for_day_spec(day_of_year as int),
    {
        if day_of_year < Season::Ware.year_cumulative_duration() {
            Season::Ware
        } else if day_of_year < Season::Summer.year_cumulative_duration() {
            Season::Summer
        } else if day_of_year < Season::Harvest.year_cumulative_duration() {
            Season::Harvest
        } else {
            Season::Winter
        }
    }

    /// The season's name.
    pub fn into_str(self) -> (r: &'static str)
        ensures
            r@ == match self {
                Season::Ware => "ware"@,
                Season::Summer => "summer"@,
                Season::Harvest => "harvest"@,
                Season::Winter => "winter"@,
            },
    {
        match self {
            Season::Ware => "ware",
            Season::Summer => "summer",
            Season::Harvest => "harvest",
            Season::Winter => "winter",
        }
    }
}

/// A phase of the moon.
#[derive(Debug, Clone, Copy, PartialEq, Eq, Structural, PartialOrd, Ord, Hash)]
pub enum LunarPhase {
    New,
    WaxingCrescent,
    FirstQuarter,
    WaxingGibbous,
    Full,
    WaningGibbous,
    LastQuarter,
    WaningCrescent,
}

impl Default for LunarPhase {
    fn default() -> (r: Self)
        ensures
            r == LunarPhase::New,
    {
        LunarPhase::New
    }
}

impl LunarPhase {
    /// The number of phases.
    pub const COUNT: u64 = 8;

    /// The position of the phase in the lunar month.
    pub open spec fn index_spec(self) -> int {
        match self {
            LunarPhase::New => 0,
            LunarPhase::WaxingCrescent => 1,
            LunarPhase::FirstQuarter => 2,
            LunarPhase::WaxingGibbous => 3,
            LunarPhase::Full => 4,
            LunarPhase::WaningGibbous => 5,
            LunarPhase::LastQuarter => 6,
            LunarPhase::WaningCrescent => 7,
        }
    }

    /// The phases follow the order in which they are declared, the new moon
    /// first and the full moon halfway: each phase has its own position in the
    /// month of eight days, the new moon at the start and the full moon at
    /// the fourth day, and the phase after `p` in the month is the one declared
    /// after it, wrapping from the waning crescent to the new moon.
    pub proof fn law_phase_order(p: LunarPhase, q: LunarPhase)
        ensures
            0 <= p.index_spec() < 8,
            p.index_spec() == q.index_spec() ==> p == q,
            p.index_spec() == 0 <==> p == LunarPhase::New,
            p.index_spec() == 4 <==> p == LunarPhase::Full,
            p == LunarPhase::New ==> (q.index_spec() == 1 <==> q == LunarPhase::WaxingCrescent),
            p == LunarPhase::WaxingCrescent ==> (q.index_spec() == 2 <==> q == LunarPhase::FirstQuarter),
            p == LunarPhase::FirstQuarter ==> (q.index_spec() == 3 <==> q == LunarPhase::WaxingGibbous),
            p == LunarPhase::Full ==> (q.index_spec() == 5 <==> q == LunarPhase::WaningGibbous),
            p == LunarPhase::WaningGibbous ==> (q.index_spec() == 6 <==> q == LunarPhase::LastQuarter),
            p == LunarPhase::LastQuarter ==> (q.index_spec() == 7 <==> q == LunarPhase::WaningCrescent),
    {
    }

    /// The position of the phase in the lunar month.
    pub fn index(self) -> (r: u64)
        ensures
            r == self.index_spec(),
    {
        match self {
            LunarPhase::New => 0,
            LunarPhase::WaxingCrescent => 1,
            LunarPhase::FirstQuarter => 2,
            LunarPhase::WaxingGibbous => 3,
            LunarPhase::Full => 4,
            LunarPhase::WaningGibbous => 5,
            LunarPhase::LastQuarter => 6,
            LunarPhase::WaningCrescent => 7,
        }
    }

    /// The phase at position `index` of the lunar month, if any.
    pub fn from_index(index: u64) -> (r: Option<LunarPhase>)
        ensures
            match r {
                Some(p) => index < 8 && p.index_spec() == index,
                None => index >= 8,
            },
    {
        match index {
            0 => Some(LunarPhase::New),
            1 => Some(LunarPhase::WaxingCrescent),
            2 => Some(LunarPhase::FirstQuarter),
            3 => Some(LunarPhase::WaxingGibbous),
            4 => Some(LunarPhase::Full),
            5 => Some(LunarPhase::WaningGibbous),
            6 => Some(LunarPhase::LastQuarter),
            7 => Some(LunarPhase::WaningCrescent),
            _ => None,
        }
    }
}

/// How many ticks a day lasts.
pub const CIRCADIAN_CYCLE_SIZE: u64 = 0x1_0000;

/// The last tick of the world.
pub const MAX_STAMP: u64 = 270 * 0x1_0000;

/// The stamp after one tick from `s`: one more, up to the last tick.
pub open spec fn tick_stamp(s: int) -> int {
    if s < MAX_STAMP {
        s + 1
    } else {
        MAX_STAMP as int
    }
}

/// The stamp after `n` ticks from `s`.
pub open spec fn stamp_after(s: int, n: nat) -> int
    decreases n,
{
    if n == 0 {
        s
    } else {
        tick_stamp(stamp_after(s, (n - 1) as nat))
    }
}

/// A tick moves a clock that has not reached the world's end one tick on,
/// into the same day or the next; a clock at the end stays there.
pub proof fn law_tick_advances(s: int)
    requires
        0 <= s <= MAX_STAMP,
    ensures
        s < MAX_STAMP ==> tick_stamp(s) > s && tick_stamp(s) / (CIRCADIAN_CYCLE_SIZE as int) - s / (
        CIRCADIAN_CYCLE_SIZE as int) <= 1,
        s >= MAX_STAMP ==> tick_stamp(s) == s,
        tick_stamp(s) <= MAX_STAMP,
{
    if s < MAX_STAMP {
        let c = CIRCADIAN_CYCLE_SIZE as int;
        assert((s + 1) / c - s / c <= 1) by (nonlinear_arith)
            requires
                c > 0,
                s >= 0,
        {
            assert(s / c * c <= s);
            assert((s + 1) / c * c <= s + 1);
            assert(s < s / c * c + c);
        }
    }
}

/// After `n` ticks from `s` the stamp is `s + n`, up to the last tick: a
/// new clock reaches the world's end after exactly `MAX_STAMP` ticks.
pub proof fn law_stamp_after(s: int, n: nat)
    requires
        0 <= s <= MAX_STAMP,
    ensures
        stamp_after(s, n) == if s + n < MAX_STAMP {
            s + n
        } else {
            MAX_STAMP as int
        },
    decreases n,
{
    if n > 0 {
        law_stamp_after(s, (n - 1) as nat);
    }
}

/// The game's clock, counted in ticks from the start of the world; it stops at
/// the world's last tick.
#[derive(Debug, Clone, Copy, PartialEq, Eq, PartialOrd, Ord, Hash)]
pub struct Time {
    stamp: u64,
}

impl Time {
    /// How many days the world lasts.
    pub const MAX_DAYS: u64 = 270;

    /// The clock's invariant: it does not pass the world's last tick.
    #[verifier::type_invariant]
    spec fn within_world(self) -> bool {
        self.stamp <= MAX_STAMP
    }

    /// The tick the clock is at.
    pub closed spec fn stamp_spec(self) -> u64 {
        self.stamp
    }

    /// The day the clock is in.
    pub open spec fn day_spec(self) -> int {
        (self.stamp_spec() / CIRCADIAN_CYCLE_SIZE) as int
    }

    /// The day of the year the clock is in.
    pub open spec fn day_of_year_spec(self) -> int {
        self.day_spec() % 54
    }

    /// The clock at tick `stamp`, or at the last tick if `stamp` is past it.
    fn at(stamp: u64) -> (r: Time)
        ensures
            r.stamp_spec() == if stamp > MAX_STAMP {
                MAX_STAMP
            } else {
                stamp
            },
    {
        if stamp > MAX_STAMP {
            Time { stamp: MAX_STAMP }
        } else {
            Time { stamp }
        }
    }

    /// The clock at the start of the world.
    pub fn new() -> (r: Time)
        ensures
            r.stamp_spec() == 0,
    {
        Time { stamp: 0 }
    }

    /// The tick the clock is at.
    pub fn stamp(&self) -> (r: u64)
        ensures
            r == self.stamp_spec(),
            r <= MAX_STAMP,
    {
        proof {
            use_type_invariant(self);
        }
        self.stamp
    }

    /// Sets the clock to tick `stamp`, or to the last tick if `stamp` is past it.
    pub fn set(&mut self, stamp: u64)
        ensures
            final(self).stamp_spec() == if stamp > MAX_STAMP {
                MAX_STAMP
            } else {
                stamp
            },
    {
        *self = Time::at(stamp);
    }

    /// Moves the clock to day `day`, keeping the tick within the day.
    pub fn set_day(&mut self, day: u64)
        requires
            day * CIRCADIAN_CYCLE_SIZE + CIRCADIAN_CYCLE_SIZE - 1 <= u64::MAX,
        ensures
            final(self).stamp_spec() == vstd::math::min(
                old(self).stamp_spec() % CIRCADIAN_CYCLE_SIZE + day * CIRCADIAN_CYCLE_SIZE,
                MAX_STAMP as int,
            ),
    {
        let circadian_step = self.stamp % CIRCADIAN_CYCLE_SIZE;
        self.set(circadian_step + day * CIRCADIAN_CYCLE_SIZE);
    }

    /// Moves the clock to the first day of `season` in the current year.
    pub fn set_season(&mut self, season: Season)
        ensures
            final(self).stamp_spec() == vstd::math::min(
                old(self).stamp_spec() % CIRCADIAN_CYCLE_SIZE + (season.cumulative_spec() - season.duration_spec()
                    + (old(self).day_spec() / 54) * 54) * CIRCADIAN_CYCLE_SIZE,
                MAX_STAMP as int,
            ),
    {
        proof {
            use_type_invariant(&*self);
        }
        let year = self.year();
        let day = season.year_cumulative_duration() - season.duration();
        self.set_day(day + year * Season::YEAR_DURATION);
    }

    /// Moves the clock to the day of `phase` in the current lunar month.
    pub fn set_lunar_phase(&mut self, phase: LunarPhase)
        ensures
            final(self).stamp_spec() == vstd::math::min(
                old(self).stamp_spec() % CIRCADIAN_CYCLE_SIZE + (phase.index_spec() + (old(self).day_spec() / 8) * 8)
                    * CIRCADIAN_CYCLE_SIZE,
                MAX_STAMP as int,
            ),
    {
        proof {
            use_type_invariant(&*self);
        }
        let month = self.month();
        let phase = phase.index();
        self.set_day(phase + month * LunarPhase::COUNT);
    }

    /// Moves the clock to day `day` (taken modulo the year's length) of the
    /// current year, keeping the tick within the day.
    pub fn set_day_of_year(&mut self, day: u64)
        ensures
            final(self).stamp_spec() == vstd::math::min(
                old(self).stamp_spec() % CIRCADIAN_CYCLE_SIZE + (day % 54) * CIRCADIAN_CYCLE_SIZE + (old(
                    self,
                ).day_spec() / 54) * 54 * CIRCADIAN_CYCLE_SIZE,
                MAX_STAMP as int,
            ),
    {
        proof {
            use_type_invariant(&*self);
        }
        let circadian_step = self.stamp % CIRCADIAN_CYCLE_SIZE;
        let year = self.year();
        self.set(
            circadian_step + (day % Season::YEAR_DURATION) * CIRCADIAN_CYCLE_SIZE + year * Season::YEAR_DURATION
                * CIRCADIAN_CYCLE_SIZE,
        );
    }

    /// Moves the clock to year `year`, keeping the day of the year and the tick
    /// within the day.
    pub fn set_year(&mut self, year: u64)
        requires
            (old(self).day_of_year_spec() + year * 54) * CIRCADIAN_CYCLE_SIZE + CIRCADIAN_CYCLE_SIZE - 1
                <= u64::MAX,
        ensures
            final(self).stamp_spec() == vstd::math::min(
                old(self).stamp_spec() % CIRCADIAN_CYCLE_SIZE + (old(self).day_of_year_spec() + year * 54)
                    * CIRCADIAN_CYCLE_SIZE,
                MAX_STAMP as int,
            ),
    {
        let day_of_year = self.day_of_year();
        assert(year * 54 <= u64::MAX) by (nonlinear_arith)
            requires
                (day_of_year + year * 54) * 0x1_0000 + 0x1_0000 - 1 <= u64::MAX,
        ;
        self.set_day(day_of_year + year * Season::YEAR_DURATION);
    }

    /// Over ticks of the clock: one tick takes a clock that the world's end has
    /// not reached to a later tick, in the same day or the next, and leaves a
    /// clock at the end where it is, so an ended world stays ended after any
    /// number of ticks; a new clock reaches the end after exactly `MAX_STAMP`
    /// ticks and not before.
    pub proof fn law_clock(self, n: nat)
        requires
            self.stamp_spec() <= MAX_STAMP,
        ensures
            self.stamp_spec() < MAX_STAMP ==> tick_stamp(self.stamp_spec() as int) > self.stamp_spec()
                && tick_stamp(self.stamp_spec() as int) / (CIRCADIAN_CYCLE_SIZE as int) - self.day_spec() <= 1,
            self.stamp_spec() >= MAX_STAMP ==> stamp_after(self.stamp_spec() as int, n) == self.stamp_spec(),
            stamp_after(0, MAX_STAMP as nat) == MAX_STAMP,
            n < MAX_STAMP ==> stamp_after(0, n) < MAX_STAMP,
    {
        law_tick_advances(self.stamp_spec() as int);
        law_stamp_after(self.stamp_spec() as int, n);
        law_stamp_after(0, MAX_STAMP as nat);
        law_stamp_after(0, n);
    }

    /// Advances the clock by one tick, unless it is at the last tick.
    pub fn on_tick(&mut self)
        ensures
            final(self).stamp_spec() == tick_stamp(old(self).stamp_spec() as int),
    {
        proof {
            use_type_invariant(&*self);
        }
        self.set(self.stamp + 1);
    }

    /// Whether the clock is at the world's last tick.
    pub fn world_ended(&self) -> (r: bool)
        ensures
            r == (self.stamp_spec() >= MAX_STAMP),
    {
        self.stamp >= MAX_STAMP
    }

    /// The part of the day the clock is in.
    pub fn circadian_cycle_step(&self) -> (r: CircadianCycleStep)
        ensures
            r == step_for_clock_spec(
                self.day_of_year_spec(),
                (self.stamp_spec() % CIRCADIAN_CYCLE_SIZE) as int,
                CIRCADIAN_CYCLE_SIZE as int,
            ),
    {
        let day_of_year = self.day_of_year();
        CircadianCycleStep::for_day_clock(day_of_year, self.stamp % CIRCADIAN_CYCLE_SIZE, CIRCADIAN_CYCLE_SIZE)
    }

    /// How far into the day the clock is: its tick within the day over the
    /// ticks of a day.
    pub fn in_day_clock(&self) -> (r: Ratio)
        ensures
            r.numer_spec() == self.stamp_spec() % CIRCADIAN_CYCLE_SIZE,
            r.denom_spec() == CIRCADIAN_CYCLE_SIZE,
    {
        Ratio::new(self.stamp % CIRCADIAN_CYCLE_SIZE, CIRCADIAN_CYCLE_SIZE)
    }

    /// Moves the clock, within its day, to the fraction `clock` of the day,
    /// rounded down and at most the day's last tick.
    pub fn set_in_day_clock(&mut self, clock: Ratio)
        ensures
            final(self).stamp_spec() == vstd::math::min(
                vstd::math::min(clock.floor_mul_spec(CIRCADIAN_CYCLE_SIZE as int), CIRCADIAN_CYCLE_SIZE - 1)
                    + old(self).day_spec() * CIRCADIAN_CYCLE_SIZE,
                MAX_STAMP as int,
            ),
    {
        let day = self.day();
        let step = clock.floor_mul_capped(CIRCADIAN_CYCLE_SIZE, CIRCADIAN_CYCLE_SIZE - 1);
        self.set(step + day * CIRCADIAN_CYCLE_SIZE);
    }

    /// Moves the clock, within its day, to the start of `step` on the
    /// current day of the year.
    pub fn set_circadian_cycle_step(&mut self, step: CircadianCycleStep)
        ensures
            final(self).stamp_spec() == vstd::math::min(
                vstd::math::min(
                    (cumulative_in_day_spec(step, old(self).day_of_year_spec()) - duration_in_day_spec(
                        step,
                        old(self).day_of_year_spec(),
                    )) * CIRCADIAN_CYCLE_SIZE / cumulative_in_day_spec(
                        CircadianCycleStep::Night,
                        old(self).day_of_year_spec(),
                    ),
                    CIRCADIAN_CYCLE_SIZE - 1,
                ) + old(self).day_spec() * CIRCADIAN_CYCLE_SIZE,
                MAX_STAMP as int,
            ),
    {
        let day_of_year = self.day_of_year();
        let relative = step.cumul_dur_in_day_of_year(day_of_year) - step.duration_in_day_of_year(day_of_year);
        let total = CircadianCycleStep::total_for_day_of_year(day_of_year);
        self.set_in_day_clock(Ratio::new(relative, total));
    }

    /// The day the clock is in.
    pub fn day(&self) -> (r: u64)
        ensures
            r == self.day_spec(),
            r <= Time::MAX_DAYS,
    {
        proof {
            use_type_invariant(self);
        }
        self.stamp / CIRCADIAN_CYCLE_SIZE
    }

    /// The day of the year the clock is in.
    pub fn day_of_year(&self) -> (r: u64)
        ensures
            r == self.day_of_year_spec(),
            r < 54,
    {
        self.day() % Season::YEAR_DURATION
    }

    /// The year the clock is in.
    pub fn year(&self) -> (r: u64)
        ensures
            r == self.day_spec() / 54,
            r <= 5,
    {
        self.day() / Season::YEAR_DURATION
    }

    /// The season the clock is in.
    pub fn season(&self) -> (r: Season)
        ensures
            r == Season::for_day_spec(self.day_of_year_spec()),
    {
        Season::for_day_of_year(self.day_of_year())
    }

    /// The lunar month the clock is in.
    pub fn month(&self) -> (r: u64)
        ensures
            r == self.day_spec() / 8,
            r <= 33,
    {
        self.day() / LunarPhase::COUNT
    }

    /// The moon is new on the first day of every lunar month and full on its
    /// fifth: the phase whose position is the day's place in the month is the
    /// new moon exactly on days that are multiples of eight, the full moon
    /// exactly four days later.
    pub proof fn law_lunar_month(self, p: LunarPhase)
        requires
            p.index_spec() == self.day_spec() % 8,
        ensures
            p == LunarPhase::New <==> self.day_spec() % 8 == 0,
            p == LunarPhase::Full <==> self.day_spec() % 8 == 4,
    {
        LunarPhase::law_phase_order(p, p);
    }

    /// The phase of the moon on the current day.
    pub fn lunar_phase(&self) -> (r: LunarPhase)
        ensures
            r.index_spec() == self.day_spec() % 8,
    {
        match LunarPhase::from_index(self.day() % LunarPhase::COUNT) {
            Some(p) => p,
            None => LunarPhase::New,
        }
    }
}

} // verus!
