//! Generation of a layer one point per tick: a state machine that draws a
//! value for the current point, writes it, and moves on row by row until the
//! map is done.
use vstd::prelude::*;
use crate::domain::geometry::{Coord, CoordPair, Rect};
use crate::domain::map::GameMap;
use crate::gen::layer::{Layer, LayerDistribution};
use crate::gen::random::PickedReproducibleRng;

verus! {

/// Why a tick of generation failed.
#[derive(Debug, Clone, Copy, PartialEq, Eq)]
pub enum GenError<L, Ld> {
    /// The layer could not be written.
    Layer(L),
    /// No value could be drawn.
    LayerDistribution(Ld),
}

/// What a tick of generation works on.
pub struct GeneratorTickArgs<'a, 'm, 'r, L, Ld> {
    pub layer: &'a L,
    pub layer_dist: &'a Ld,
    pub map: &'m mut GameMap,
    pub rng: &'r mut PickedReproducibleRng,
}

/// Where generation stands.
#[derive(Debug, Clone, Copy, PartialEq, Eq, Structural)]
pub enum GeneratorState {
    /// Not started.
    Init,
    /// Writing the points, one per tick.
    GeneratingPoint,
    /// Every point written.
    Done,
}

/// The point after `curr` in row-major order over `rect`, and the state that
/// follows writing `curr`.
pub open spec fn next_point(curr: CoordPair, rect: Rect) -> (CoordPair, GeneratorState) {
    if rect.top_left.x + rect.size.x <= curr.x + 1 {
        let next = CoordPair { y: (curr.y + 1) as Coord, x: rect.top_left.x };
        if rect.top_left.y + rect.size.y <= curr.y + 1 {
            (next, GeneratorState::Done)
        } else {
            (next, GeneratorState::GeneratingPoint)
        }
    } else {
        (CoordPair { y: curr.y, x: (curr.x + 1) as Coord }, GeneratorState::GeneratingPoint)
    }
}

/// Whether `curr` lies past the bottom or the right of `rect`.
pub open spec fn past_end(curr: CoordPair, rect: Rect) -> bool {
    curr.y >= rect.top_left.y + rect.size.y || curr.x >= rect.top_left.x + rect.size.x
}

#[derive(Debug, Clone)]
struct GeneratorResources {
    curr: CoordPair,
    progress_goal: u64,
    current_progress: u64,
}

impl GeneratorResources {
    fn transition<L, Ld>(&mut self, args: GeneratorTickArgs<L, Ld>, state: GeneratorState) -> (r: Result<
        GeneratorState,
        GenError<L::Error, Ld::Error>,
    >) where L: Layer, Ld: LayerDistribution<Data = L::Data>
        requires
            old(args.map).wf(),
            old(self).current_progress < u64::MAX,
        ensures
            step_done(*old(self), *final(self), *old(args.map), *final(args.map), args.layer, args.layer_dist, state, r),
    {
        match state {
            GeneratorState::Init => self.init(args),
            GeneratorState::Done => self.done(args),
            GeneratorState::GeneratingPoint => self.generating_point(args),
        }
    }

    fn done<L, Ld>(&mut self, args: GeneratorTickArgs<L, Ld>) -> (r: Result<GeneratorState, GenError<L::Error, Ld::Error>>) where
        L: Layer,
        Ld: LayerDistribution<Data = L::Data>,

        ensures
            r == Ok::<GeneratorState, GenError<L::Error, Ld::Error>>(GeneratorState::Done),
            *final(self) == (GeneratorResources { current_progress: old(self).progress_goal, ..*old(self) }),
            *final(args.map) == *old(args.map),
    {
        self.current_progress = self.progress_goal;
        Ok(GeneratorState::Done)
    }

    fn init<L, Ld>(&mut self, args: GeneratorTickArgs<L, Ld>) -> (r: Result<GeneratorState, GenError<L::Error, Ld::Error>>) where
        L: Layer,
        Ld: LayerDistribution<Data = L::Data>,

        requires
            old(args.map).wf(),
            old(self).current_progress < u64::MAX,
        ensures
            point_step(
                GeneratorResources {
                    curr: old(args.map).rect_spec().top_left,
                    progress_goal: (old(args.map).rect_spec().size.y + old(args.map).rect_spec().size.x) as u64,
                    ..*old(self)
                },
                *final(self),
                *old(args.map),
                *final(args.map),
                args.layer,
                args.layer_dist,
                r,
            ),
    {
        let rect = args.map.rect();
        let points = (rect.size.y as u64) + (rect.size.x as u64);
        self.progress_goal = points;
        self.curr = rect.top_left;
        self.generating_point(args)
    }

    fn generating_point<L, Ld>(&mut self, args: GeneratorTickArgs<L, Ld>) -> (r: Result<
        GeneratorState,
        GenError<L::Error, Ld::Error>,
    >) where L: Layer, Ld: LayerDistribution<Data = L::Data>
        requires
            old(args.map).wf(),
            old(self).current_progress < u64::MAX,
        ensures
            point_step(*old(self), *final(self), *old(args.map), *final(args.map), args.layer, args.layer_dist, r),
    {
        proof {
            args.map.lemma_wf_fits();
        }
        let rect = args.map.rect();
        let bottom_right = CoordPair { y: rect.top_left.y + rect.size.y, x: rect.top_left.x + rect.size.x };
        if self.curr.y >= bottom_right.y || self.curr.x >= bottom_right.x {
            return Ok(GeneratorState::Done);
        }
        self.current_progress = self.current_progress + 1;
        let data = match args.layer_dist.sample(args.map, self.curr, args.rng) {
            Ok(data) => data,
            Err(e) => return Err(GenError::LayerDistribution(e)),
        };
        match args.layer.set(args.map, self.curr, data) {
            Ok(()) => {},
            Err(e) => return Err(GenError::Layer(e)),
        }
        self.curr.x = self.curr.x + 1;
        if bottom_right.x <= self.curr.x {
            self.curr.x = rect.top_left.x;
            self.curr.y = self.curr.y + 1;
            if bottom_right.y <= self.curr.y {
                return Ok(GeneratorState::Done);
            }
        }
        Ok(GeneratorState::GeneratingPoint)
    }
}

/// What one step of writing a point does: nothing past the end of the map;
/// else one more step of progress, a value drawn and written at the current
/// point, and the next point, unless drawing or writing failed.
pub open spec fn point_step_spec<L: Layer, Ld: LayerDistribution<Data = L::Data>>(
    curr: CoordPair,
    progress: u64,
    new_curr: CoordPair,
    new_progress: u64,
    old_map: GameMap,
    new_map: GameMap,
    layer: &L,
    layer_dist: &Ld,
    r: Result<GeneratorState, GenError<L::Error, Ld::Error>>,
) -> bool {
    let rect = old_map.rect_spec();
    &&& new_map.wf()
    &&& new_map.rect_spec() == rect
    &&& if past_end(curr, rect) {
        &&& r == Ok::<GeneratorState, GenError<L::Error, Ld::Error>>(GeneratorState::Done)
        &&& new_curr == curr
        &&& new_progress == progress
        &&& new_map == old_map
    } else {
        &&& new_progress == progress + 1
        &&& match r {
            Ok(state) => {
                &&& layer_dist.admits(old_map, curr, layer.value_at(new_map, curr))
                &&& (new_curr, state) == next_point(curr, rect)
                &&& forall|q: CoordPair|
                    #[trigger] rect.contains(q) && q != curr ==> layer.value_at(new_map, q) == layer.value_at(old_map, q)
            },
            Err(GenError::LayerDistribution(_)) => new_map == old_map && new_curr == curr,
            Err(GenError::Layer(_)) => new_curr == curr,
        }
    }
}

spec fn point_step<L: Layer, Ld: LayerDistribution<Data = L::Data>>(
    old_res: GeneratorResources,
    new_res: GeneratorResources,
    old_map: GameMap,
    new_map: GameMap,
    layer: &L,
    layer_dist: &Ld,
    r: Result<GeneratorState, GenError<L::Error, Ld::Error>>,
) -> bool {
    &&& new_res.progress_goal == old_res.progress_goal
    &&& point_step_spec(
        old_res.curr,
        old_res.current_progress,
        new_res.curr,
        new_res.current_progress,
        old_map,
        new_map,
        layer,
        layer_dist,
        r,
    )
}

spec fn step_done<L: Layer, Ld: LayerDistribution<Data = L::Data>>(
    old_res: GeneratorResources,
    new_res: GeneratorResources,
    old_map: GameMap,
    new_map: GameMap,
    layer: &L,
    layer_dist: &Ld,
    state: GeneratorState,
    r: Result<GeneratorState, GenError<L::Error, Ld::Error>>,
) -> bool {
    match state {
        GeneratorState::Init => point_step(
            GeneratorResources {
                curr: old_map.rect_spec().top_left,
                progress_goal: (old_map.rect_spec().size.y + old_map.rect_spec().size.x) as u64,
                ..old_res
            },
            new_res,
            old_map,
            new_map,
            layer,
            layer_dist,
            r,
        ),
        GeneratorState::GeneratingPoint => point_step(old_res, new_res, old_map, new_map, layer, layer_dist, r),
        GeneratorState::Done => {
            &&& r == Ok::<GeneratorState, GenError<L::Error, Ld::Error>>(GeneratorState::Done)
            &&& new_res == (GeneratorResources { current_progress: old_res.progress_goal, ..old_res })
            &&& new_map == old_map
        },
    }
}

/// What one tick does to a generator and the map, by the state it was in:
/// at the start, the goal becomes the map's width plus height and the top left
/// point is written; while writing points, the current one is written; once
/// done, the progress reaches the goal.
pub open spec fn tick_spec<L: Layer, Ld: LayerDistribution<Data = L::Data>>(
    old_g: Generator,
    new_g: Generator,
    old_map: GameMap,
    new_map: GameMap,
    layer: &L,
    layer_dist: &Ld,
    r: Result<GeneratorState, GenError<L::Error, Ld::Error>>,
) -> bool {
    let rect = old_map.rect_spec();
    match old_g.state_spec() {
        GeneratorState::Init => {
            &&& new_g.progress_goal_spec() == (rect.size.y + rect.size.x) as u64
            &&& point_step_spec(
                rect.top_left,
                old_g.current_progress_spec(),
                new_g.curr_spec(),
                new_g.current_progress_spec(),
                old_map,
                new_map,
                layer,
                layer_dist,
                r,
            )
        },
        GeneratorState::GeneratingPoint => {
            &&& new_g.progress_goal_spec() == old_g.progress_goal_spec()
            &&& point_step_spec(
                old_g.curr_spec(),
                old_g.current_progress_spec(),
                new_g.curr_spec(),
                new_g.current_progress_spec(),
                old_map,
                new_map,
                layer,
                layer_dist,
                r,
            )
        },
        GeneratorState::Done => {
            &&& r == Ok::<GeneratorState, GenError<L::Error, Ld::Error>>(GeneratorState::Done)
            &&& new_g.curr_spec() == old_g.curr_spec()
            &&& new_g.progress_goal_spec() == old_g.progress_goal_spec()
            &&& new_g.current_progress_spec() == old_g.progress_goal_spec()
            &&& new_map == old_map
        },
    }
}

/// The generator of a layer, one point per tick.
#[derive(Debug, Clone)]
pub struct Generator {
    state: GeneratorState,
    resources: GeneratorResources,
}

impl Generator {
    /// Where generation stands.
    pub closed spec fn state_spec(self) -> GeneratorState {
        self.state
    }

    /// The point to write next.
    pub closed spec fn curr_spec(self) -> CoordPair {
        self.resources.curr
    }

    /// The progress made.
    pub closed spec fn current_progress_spec(self) -> u64 {
        self.resources.current_progress
    }

    /// The progress at which generation is done.
    pub closed spec fn progress_goal_spec(self) -> u64 {
        self.resources.progress_goal
    }

    /// A generator that has not started.
    pub fn new() -> (r: Generator)
        ensures
            r.state_spec() == GeneratorState::Init,
            r.curr_spec() == (CoordPair { y: 0, x: 0 }),
            r.progress_goal_spec() == 0,
            r.current_progress_spec() == 1,
    {
        Generator {
            state: GeneratorState::Init,
            resources: GeneratorResources { curr: CoordPair { y: 0, x: 0 }, progress_goal: 0, current_progress: 1 },
        }
    }

    /// Starts over.
    pub fn reset(&mut self)
        ensures
            final(self).state_spec() == GeneratorState::Init,
            final(self).curr_spec() == (CoordPair { y: 0, x: 0 }),
            final(self).current_progress_spec() == 0,
            final(self).progress_goal_spec() == 1,
    {
        self.resources.curr = CoordPair { y: 0, x: 0 };
        self.resources.current_progress = 0;
        self.resources.progress_goal = 1;
        self.state = GeneratorState::Init;
    }

    /// The progress made.
    pub fn current_progress(&self) -> (r: u64)
        ensures
            r == self.current_progress_spec(),
    {
        self.resources.current_progress
    }

    /// The progress at which generation is done.
    pub fn progress_goal(&self) -> (r: u64)
        ensures
            r == self.progress_goal_spec(),
    {
        self.resources.progress_goal
    }

    /// What generation is doing, in words.
    pub fn progress_status(&self) -> (r: String)
        ensures
            r@ == match self.state_spec() {
                GeneratorState::Init => "initializing block generator"@,
                GeneratorState::GeneratingPoint => "generating point block"@,
                GeneratorState::Done => "done"@,
            },
    {
        let state = match self.state {
            GeneratorState::Init => "initializing block generator",
            GeneratorState::GeneratingPoint => "generating point block",
            GeneratorState::Done => "done",
        };
        state.to_string()
    }

    /// One tick: the next step of generation. Gives back `Some` once
    /// generation is done; on an error, generation is back at its start.
    pub fn on_tick<L, Ld>(&mut self, args: GeneratorTickArgs<L, Ld>) -> (r: Result<Option<()>, GenError<L::Error, Ld::Error>>) where
        L: Layer,
        Ld: LayerDistribution<Data = L::Data>,

        requires
            old(args.map).wf(),
            old(self).current_progress_spec() < u64::MAX,
        ensures
            match r {
                Ok(done) => {
                    &&& tick_spec(
                        *old(self),
                        *final(self),
                        *old(args.map),
                        *final(args.map),
                        args.layer,
                        args.layer_dist,
                        Ok(final(self).state_spec()),
                    )
                    &&& done == if final(self).state_spec() == GeneratorState::Done {
                        Some(())
                    } else {
                        None
                    }
                },
                Err(e) => {
                    &&& tick_spec(
                        *old(self),
                        *final(self),
                        *old(args.map),
                        *final(args.map),
                        args.layer,
                        args.layer_dist,
                        Err(e),
                    )
                    &&& final(self).state_spec() == GeneratorState::Init
                },
            },
    {
        let current_state = self.state;
        self.state = GeneratorState::Init;
        match self.resources.transition(args, current_state) {
            Ok(state) => {
                self.state = state;
                match state {
                    GeneratorState::Done => Ok(Some(())),
                    _ => Ok(None),
                }
            },
            Err(e) => Err(e),
        }
    }
}

} // verus!
