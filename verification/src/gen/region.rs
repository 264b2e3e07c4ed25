//! Generation of a layer by regions: a number of region centers are picked at
//! random among the map's points, each with a value of its own, and the
//! regions grow from their centers, a random slice of their frontiers at a
//! time, until every point of the map belongs to a region.
use vstd::prelude::*;
use std::convert::Infallible;
use crate::domain::geometry::{Coord, CoordPair, Rect};
use crate::domain::map::{flat_index, lemma_flat_index_bounds, lemma_flat_index_injective, GameMap};
use crate::gen::layer::Layer;
use crate::gen::random::{shuffle, MutableDistribution, PickedReproducibleRng};
use crate::ratio::Ratio;
use crate::geometry::axis::{moved_pair, pair_value, Direction};

verus! {

broadcast use vstd::seq_lib::group_to_multiset_ensures;

/// Why a layer could not be generated by regions.
#[derive(Debug, Clone, Copy, PartialEq, Eq)]
pub enum Error<Le, De, Ce> {
    /// The layer could not be written.
    Layer(Le),
    /// The value of a region could not be drawn.
    DataDistr(De),
    /// A collector refused a region or a point.
    Collection(Ce),
}

/// What hears of the regions as they are made: each region with its center
/// and value, and each point as it joins a region's frontier.
pub trait Collector<T> {
    /// Why the collector refused a region or a point.
    type Error;

    /// Whether the collector takes every further region, and every point of
    /// one of the first `regions` regions of this run. A collector that does
    /// not say so promises nothing.
    open spec fn open_to(&self, regions: nat) -> bool {
        false
    }

    /// A region, with its center and its value.
    fn add_region(&mut self, center: CoordPair, data: &T) -> (r: Result<(), Self::Error>)
        ensures
            forall|k: nat| #[trigger] old(self).open_to(k) ==> r is Ok && final(self).open_to(k + 1),
    ;

    /// A point joining the frontier of the `region`-th region.
    fn add_point(&mut self, region: usize, point: CoordPair) -> (r: Result<(), Self::Error>)
        ensures
            forall|k: nat| #[trigger] old(self).open_to(k) && region < k ==> r is Ok && final(self).open_to(k),
    ;
}

/// A collector that takes everything and keeps nothing.
#[derive(Debug, Clone, Copy)]
pub struct NopCollector;

impl<T> Collector<T> for NopCollector {
    type Error = Infallible;

    open spec fn open_to(&self, regions: nat) -> bool {
        true
    }

    fn add_region(&mut self, center: CoordPair, data: &T) -> (r: Result<(), Infallible>) {
        Ok(())
    }

    fn add_point(&mut self, region: usize, point: CoordPair) -> (r: Result<(), Infallible>) {
        Ok(())
    }
}

/// Whether `p` and `q` are one unit apart along an axis.
pub open spec fn adjacent(p: CoordPair, q: CoordPair) -> bool {
    ||| p.x == q.x && (p.y + 1 == q.y || q.y + 1 == p.y)
    ||| p.y == q.y && (p.x + 1 == q.x || q.x + 1 == p.x)
}

/// Whether `p` is a point of `rect` still free, by the flags `free`.
pub open spec fn open_at(rect: Rect, free: Seq<bool>, p: CoordPair) -> bool {
    rect.contains(p) && free[flat_index(rect, p)]
}

/// Whether `p` is a point of `rect` already taken by a region.
pub open spec fn taken_at(rect: Rect, free: Seq<bool>, p: CoordPair) -> bool {
    rect.contains(p) && !free[flat_index(rect, p)]
}

/// Whether some entry of a frontier is at `p`.
pub open spec fn listed(entries: Seq<(usize, CoordPair)>, p: CoordPair) -> bool {
    exists|k: int| 0 <= k < entries.len() && (#[trigger] entries[k]).1 == p
}

/// Every free point next to a taken point that is not `pending` has an entry
/// in the frontier.
pub open spec fn covers(rect: Rect, free: Seq<bool>, entries: Seq<(usize, CoordPair)>, pending: Seq<CoordPair>) -> bool {
    forall|p: CoordPair, q: CoordPair|
        #![trigger adjacent(p, q)]
        open_at(rect, free, p) && taken_at(rect, free, q) && adjacent(p, q) && !pending.contains(q) ==> listed(entries, p)
}

/// Every entry of a frontier names one of the `n` regions and a point of `rect`.
pub open spec fn entries_wf(rect: Rect, entries: Seq<(usize, CoordPair)>, n: int) -> bool {
    forall|k: int| 0 <= k < entries.len() ==> (#[trigger] entries[k]).0 < n && rect.contains(entries[k].1)
}

/// Whether the value of `layer` at `p` in `map` is a clone of one of the values `data`.
pub open spec fn filled<L: Layer>(layer: &L, map: GameMap, data: Seq<L::Data>, p: CoordPair) -> bool where
    L::Data: Clone,
 {
    exists|i: int| 0 <= i < data.len() && cloned(data[i], #[trigger] layer.value_at(map, p))
}

/// Whether every clone of `d` can be written at `point` of `map`.
pub open spec fn writes_clones<L: Layer>(layer: &L, map: GameMap, point: CoordPair, d: L::Data) -> bool where
    L::Data: Clone,
 {
    forall|v: L::Data| cloned(d, v) ==> #[trigger] layer.accepts(map, point, v)
}

/// Whether every clone of each value of `data` can be written at every point
/// of every map on `rect`.
pub open spec fn writes_all<L: Layer>(layer: &L, rect: Rect, data: Seq<L::Data>) -> bool where L::Data: Clone {
    forall|m: GameMap, p: CoordPair, i: int|
        m.wf() && m.rect_spec() == rect && rect.contains(p) && 0 <= i < data.len() ==> #[trigger] writes_clones(
            layer,
            m,
            p,
            data[i],
        )
}

/// Whether every value can be written at every point of every map on `rect`.
pub open spec fn accepts_anywhere<L: Layer>(layer: &L, rect: Rect) -> bool {
    forall|m: GameMap, p: CoordPair, v: L::Data|
        m.wf() && m.rect_spec() == rect && rect.contains(p) ==> #[trigger] layer.accepts(m, p, v)
}

/// The number of flags set.
pub open spec fn trues(s: Seq<bool>) -> nat
    decreases s.len(),
{
    if s.len() == 0 {
        0
    } else {
        trues(s.drop_last()) + if s.last() {
            1nat
        } else {
            0nat
        }
    }
}

/// Clearing a set flag takes one from the count.
proof fn lemma_trues_clear(s: Seq<bool>, i: int)
    requires
        0 <= i < s.len(),
        s[i],
    ensures
        trues(s.update(i, false)) + 1 == trues(s),
    decreases s.len(),
{
    let t = s.update(i, false);
    if i == s.len() - 1 {
        assert(t.drop_last() =~= s.drop_last());
    } else {
        lemma_trues_clear(s.drop_last(), i);
        assert(t.drop_last() =~= s.drop_last().update(i, false));
    }
}

/// A positive count has a set flag.
proof fn lemma_trues_some(s: Seq<bool>)
    requires
        trues(s) > 0,
    ensures
        exists|i: int| 0 <= i < s.len() && s[i],
    decreases s.len(),
{
    if !s.last() {
        lemma_trues_some(s.drop_last());
        let i = choose|i: int| 0 <= i < s.drop_last().len() && s.drop_last()[i];
        assert(s[i]);
    } else {
        assert(s[s.len() - 1]);
    }
}

/// With every flag set, the count is the length.
proof fn lemma_trues_all(s: Seq<bool>)
    requires
        forall|i: int| 0 <= i < s.len() ==> s[i],
    ensures
        trues(s) == s.len(),
    decreases s.len(),
{
    if s.len() > 0 {
        lemma_trues_all(s.drop_last());
    }
}

/// The distance between two points, along both axes.
pub open spec fn distance(a: CoordPair, b: CoordPair) -> int {
    (if a.y >= b.y { a.y - b.y } else { b.y - a.y }) + (if a.x >= b.x { a.x - b.x } else { b.x - a.x })
}

/// Where a free and a taken point of a rectangle exist, a free point lies
/// next to a taken one.
proof fn lemma_meeting_point(rect: Rect, free: Seq<bool>, a: CoordPair, b: CoordPair)
    requires
        open_at(rect, free, a),
        taken_at(rect, free, b),
    ensures
        exists|p: CoordPair, q: CoordPair| open_at(rect, free, p) && taken_at(rect, free, q) && #[trigger] adjacent(p, q),
    decreases distance(a, b),
{
    let c = if b.x < a.x {
        CoordPair { y: b.y, x: (b.x + 1) as u16 }
    } else if b.x > a.x {
        CoordPair { y: b.y, x: (b.x - 1) as u16 }
    } else if b.y < a.y {
        CoordPair { y: (b.y + 1) as u16, x: b.x }
    } else {
        CoordPair { y: (b.y - 1) as u16, x: b.x }
    };
    assert(adjacent(c, b));
    assert(rect.contains(c));
    if free[flat_index(rect, c)] {
        assert(open_at(rect, free, c) && taken_at(rect, free, b));
    } else {
        lemma_meeting_point(rect, free, a, c);
    }
}

/// A shuffled frontier lists the points it listed.
proof fn lemma_listed_permuted(a: Seq<(usize, CoordPair)>, b: Seq<(usize, CoordPair)>, p: CoordPair)
    requires
        a.to_multiset() == b.to_multiset(),
        listed(a, p),
    ensures
        listed(b, p),
{
    let k = choose|k: int| 0 <= k < a.len() && (#[trigger] a[k]).1 == p;
    assert(a.contains(a[k]));
    assert(a.to_multiset().count(a[k]) > 0);
    assert(b.contains(a[k]));
    let j = choose|j: int| 0 <= j < b.len() && b[j] == a[k];
    assert(b[j].1 == p);
}

/// The place of `p` in the flags of the points of `rect`.
fn index_of(rect: Rect, p: CoordPair) -> (r: usize)
    requires
        rect.contains(p),
    ensures
        r == flat_index(rect, p),
        r < rect.size.x * rect.size.y,
{
    proof {
        lemma_flat_index_bounds(rect, p);
        assert(rect.size.x * rect.size.y <= 0xFFFF * 0xFFFF) by (nonlinear_arith)
            requires
                rect.size.x <= 0xFFFF,
                rect.size.y <= 0xFFFF,
        ;
    }
    (rect.size.x as usize) * ((p.y - rect.top_left.y) as usize) + ((p.x - rect.top_left.x) as usize)
}

/// Looks at the point next to `point` in `direction`: where it is a free point
/// of the map, the collector hears of it and it joins the frontier of `region`.
fn visit<D, C: Collector<D>>(
    region: usize,
    point: CoordPair,
    direction: Direction,
    rect: Rect,
    free: &Vec<bool>,
    collector: &mut C,
    frontiers: &mut Vec<(usize, CoordPair)>,
    Ghost(regions): Ghost<nat>,
) -> (r: Result<(), C::Error>)
    requires
        free@.len() == rect.size.x * rect.size.y,
    ensures
        old(collector).open_to(regions) && region < regions ==> r is Ok && final(collector).open_to(regions),
        final(frontiers)@.len() >= old(frontiers)@.len(),
        final(frontiers)@.subrange(0, old(frontiers)@.len() as int) == old(frontiers)@,
        forall|k: int|
            old(frontiers)@.len() <= k < final(frontiers)@.len() ==> (#[trigger] final(frontiers)@[k]).0 == region
                && open_at(rect, free@, final(frontiers)@[k].1) && adjacent(point, final(frontiers)@[k].1),
        r is Ok ==> forall|q: CoordPair|
            #![trigger open_at(rect, free@, q)]
            open_at(rect, free@, q) && pair_value(q) == moved_pair(direction, 1, point) ==> listed(final(frontiers)@, q),
{
    match point.checked_move_unit(direction) {
        Some(new_point) => {
            if rect.contains_point(new_point) {
                let index = index_of(rect, new_point);
                if free[index] {
                    match collector.add_point(region, new_point) {
                        Ok(()) => {},
                        Err(e) => return Err(e),
                    }
                    let ghost before = frontiers@;
                    frontiers.push((region, new_point));
                    proof {
                        assert(frontiers@[before.len() as int].1 == new_point);
                        assert(frontiers@.subrange(0, before.len() as int) =~= before);
                    }
                } else {
                    proof {
                        assert(frontiers@.subrange(0, frontiers@.len() as int) =~= frontiers@);
                    }
                }
            } else {
                proof {
                    assert(frontiers@.subrange(0, frontiers@.len() as int) =~= frontiers@);
                }
            }
        },
        None => {
            proof {
                assert(frontiers@.subrange(0, frontiers@.len() as int) =~= frontiers@);
            }
        },
    }
    Ok(())
}

/// A point next to `point` is one unit away from it in one of the four directions.
proof fn lemma_adjacent_direction(point: CoordPair, q: CoordPair)
    requires
        adjacent(point, q),
    ensures
        pair_value(q) == moved_pair(Direction::Up, 1, point) || pair_value(q) == moved_pair(Direction::Left, 1, point)
            || pair_value(q) == moved_pair(Direction::Down, 1, point) || pair_value(q) == moved_pair(
            Direction::Right,
            1,
            point,
        ),
{
}

/// The point of `rect` at place `index` of its flags.
proof fn lemma_point_at(rect: Rect, index: int) -> (p: CoordPair)
    requires
        0 <= index < rect.size.x * rect.size.y,
        rect.top_left.y + rect.size.y <= 0xFFFF,
        rect.top_left.x + rect.size.x <= 0xFFFF,
    ensures
        rect.contains(p),
        flat_index(rect, p) == index,
{
    let sx = rect.size.x as int;
    let sy = rect.size.y as int;
    let row = index / sx;
    let col = index % sx;
    assert(0 <= row < sy && 0 <= col < sx && index == sx * row + col) by (nonlinear_arith)
        requires
            0 <= index < sx * sy,
            sx > 0,
            row == index / sx,
            col == index % sx,
    {
        assert(index == sx * (index / sx) + index % sx);
        if row >= sy {
            assert(sx * row >= sx * sy);
        }
    }
    CoordPair { y: (rect.top_left.y + row) as u16, x: (rect.top_left.x + col) as u16 }
}

/// Takes `point` into the `region`-th region: writes the region's value there,
/// then lets each free point next to it join the region's frontier.
fn expand_point<L, De, C>(
    layer: &L,
    regions_data: &Vec<L::Data>,
    region: usize,
    point: CoordPair,
    rect: Rect,
    free: &Vec<bool>,
    map: &mut GameMap,
    collector: &mut C,
    frontiers: &mut Vec<(usize, CoordPair)>,
    Ghost(regions): Ghost<nat>,
) -> (r: Result<(), Error<L::Error, De, C::Error>>) where L: Layer, L::Data: Clone, C: Collector<L::Data>
    requires
        old(map).wf(),
        old(map).rect_spec() == rect,
        rect.contains(point),
        region < regions_data@.len(),
        free@.len() == rect.size.x * rect.size.y,
    ensures
        old(collector).open_to(regions) && region < regions && writes_clones(
            layer,
            *old(map),
            point,
            regions_data@[region as int],
        ) ==> r is Ok && final(collector).open_to(regions),
        final(map).wf(),
        final(map).rect_spec() == rect,
        forall|q: CoordPair|
            #[trigger] rect.contains(q) && q != point ==> layer.value_at(*final(map), q) == layer.value_at(*old(map), q),
        final(frontiers)@.len() >= old(frontiers)@.len(),
        final(frontiers)@.subrange(0, old(frontiers)@.len() as int) == old(frontiers)@,
        forall|k: int|
            old(frontiers)@.len() <= k < final(frontiers)@.len() ==> (#[trigger] final(frontiers)@[k]).0 == region
                && open_at(rect, free@, final(frontiers)@[k].1) && adjacent(point, final(frontiers)@[k].1),
        !(r matches Err(Error::DataDistr(_))),
        r is Ok ==> cloned(regions_data@[region as int], layer.value_at(*final(map), point)),
        r is Ok ==> forall|q: CoordPair|
            #![trigger open_at(rect, free@, q)]
            open_at(rect, free@, q) && adjacent(point, q) ==> listed(final(frontiers)@, q),
{
    let value = regions_data[region].clone();
    let ghost m_start = *map;
    match layer.set(map, point, value) {
        Ok(()) => {},
        Err(e) => {
            proof {
                if writes_clones(layer, m_start, point, regions_data@[region as int]) {
                    assert(layer.accepts(m_start, point, value));
                }
                assert(frontiers@.subrange(0, frontiers@.len() as int) =~= frontiers@);
            }
            return Err(Error::Layer(e));
        },
    }
    let ghost f0 = frontiers@;
    let r1 = visit(region, point, Direction::Up, rect, free, collector, frontiers, Ghost(regions));
    let ghost f1 = frontiers@;
    let r2 = match r1 {
        Ok(()) => visit(region, point, Direction::Left, rect, free, collector, frontiers, Ghost(regions)),
        Err(e) => Err(e),
    };
    let ghost f2 = frontiers@;
    let r3 = match r2 {
        Ok(()) => visit(region, point, Direction::Down, rect, free, collector, frontiers, Ghost(regions)),
        Err(e) => Err(e),
    };
    let ghost f3 = frontiers@;
    let r4 = match r3 {
        Ok(()) => visit(region, point, Direction::Right, rect, free, collector, frontiers, Ghost(regions)),
        Err(e) => Err(e),
    };
    let ghost f4 = frontiers@;
    proof {
        assert(f4.subrange(0, f0.len() as int) =~= f0) by {
            assert(f1.subrange(0, f0.len() as int) == f0);
            assert(f2.subrange(0, f1.len() as int) == f1);
            assert(f3.subrange(0, f2.len() as int) == f2);
            assert(f4.subrange(0, f3.len() as int) == f3);
            assert forall|k: int| 0 <= k < f0.len() implies f4[k] == f0[k] by {
                assert(f4[k] == f3[k]);
                assert(f3[k] == f2[k]);
                assert(f2[k] == f1[k]);
                assert(f1[k] == f0[k]);
            }
        }
        assert forall|k: int| f0.len() <= k < f4.len() implies (#[trigger] f4[k]).0 == region && open_at(rect, free@, f4[k].1)
            && adjacent(point, f4[k].1) by {
            if k < f1.len() {
                assert(f4[k] == f3[k] && f3[k] == f2[k] && f2[k] == f1[k]);
            } else if k < f2.len() {
                assert(f4[k] == f3[k] && f3[k] == f2[k]);
            } else if k < f3.len() {
                assert(f4[k] == f3[k]);
            }
        }
        if r4 is Ok {
            assert forall|q: CoordPair| #![trigger open_at(rect, free@, q)] open_at(rect, free@, q) && adjacent(point, q) implies listed(
                f4,
                q,
            ) by {
                lemma_adjacent_direction(point, q);
                if pair_value(q) == moved_pair(Direction::Up, 1, point) {
                    let k = choose|k: int| 0 <= k < f1.len() && (#[trigger] f1[k]).1 == q;
                    assert(f4[k] == f3[k] && f3[k] == f2[k] && f2[k] == f1[k]);
                } else if pair_value(q) == moved_pair(Direction::Left, 1, point) {
                    let k = choose|k: int| 0 <= k < f2.len() && (#[trigger] f2[k]).1 == q;
                    assert(f4[k] == f3[k] && f3[k] == f2[k]);
                } else if pair_value(q) == moved_pair(Direction::Down, 1, point) {
                    let k = choose|k: int| 0 <= k < f3.len() && (#[trigger] f3[k]).1 == q;
                    assert(f4[k] == f3[k]);
                }
            }
        }
    }
    match r4 {
        Ok(()) => Ok(()),
        Err(e) => Err(Error::Collection(e)),
    }
}

/// Draws the value of each of `count` regions, stopping at the first error.
fn generate_region_data<D, Dd: MutableDistribution<D>>(
    data_distr: &mut Dd,
    rng: &mut PickedReproducibleRng,
    count: usize,
) -> (r: Result<Vec<D>, Dd::Error>)
    ensures
        r matches Ok(data) ==> data@.len() == count,
        old(data_distr).always_draws() ==> r is Ok && final(data_distr).always_draws(),
{
    let mut regions_data: Vec<D> = Vec::new();
    while regions_data.len() < count
        invariant
            regions_data@.len() <= count,
            old(data_distr).always_draws() ==> data_distr.always_draws(),
        decreases count - regions_data@.len(),
    {
        match data_distr.sample_mut(rng) {
            Ok(data) => regions_data.push(data),
            Err(e) => return Err(e),
        }
    }
    Ok(regions_data)
}

/// Lists every point of `rect`, row by row.
fn initialize_available_points(rect: Rect) -> (points: Vec<CoordPair>)
    requires
        rect.top_left.y + rect.size.y <= Coord::MAX,
        rect.top_left.x + rect.size.x <= Coord::MAX,
    ensures
        points@.len() == rect.size.x * rect.size.y,
        forall|k: int| 0 <= k < points@.len() ==> rect.contains(#[trigger] points@[k]),
{
    let ghost sx = rect.size.x as int;
    let ghost area = rect.size.x * rect.size.y;
    let bottom: Coord = rect.top_left.y + rect.size.y;
    let right: Coord = rect.top_left.x + rect.size.x;
    let mut points: Vec<CoordPair> = Vec::new();
    let mut y: Coord = rect.top_left.y;
    while y < bottom
        invariant
            bottom == rect.top_left.y + rect.size.y,
            right == rect.top_left.x + rect.size.x,
            rect.top_left.y <= y <= bottom,
            sx == rect.size.x,
            points@.len() == (y - rect.top_left.y) * sx,
            forall|k: int| 0 <= k < points@.len() ==> rect.contains(#[trigger] points@[k]),
        decreases bottom - y,
    {
        let mut x: Coord = rect.top_left.x;
        while x < right
            invariant
                bottom == rect.top_left.y + rect.size.y,
                right == rect.top_left.x + rect.size.x,
                rect.top_left.y <= y < bottom,
                rect.top_left.x <= x <= right,
                sx == rect.size.x,
                points@.len() == (y - rect.top_left.y) * sx + (x - rect.top_left.x),
                forall|k: int| 0 <= k < points@.len() ==> rect.contains(#[trigger] points@[k]),
            decreases right - x,
        {
            points.push(CoordPair { y, x });
            x = x + 1;
        }
        assert((y - rect.top_left.y) * sx + sx == (y + 1 - rect.top_left.y) * sx) by (nonlinear_arith);
        y = y + 1;
    }
    assert(points@.len() == area) by (nonlinear_arith)
        requires
            points@.len() == (y - rect.top_left.y) * sx,
            y == rect.top_left.y + rect.size.y,
            sx == rect.size.x,
            area == rect.size.x * rect.size.y,
    ;
    points
}

/// Shuffles the points.
fn shuffle_available_points(rect: Rect, points: &mut Vec<CoordPair>, rng: &mut PickedReproducibleRng)
    requires
        forall|k: int| 0 <= k < old(points)@.len() ==> rect.contains(#[trigger] old(points)@[k]),
    ensures
        final(points)@.to_multiset() == old(points)@.to_multiset(),
        final(points)@.len() == old(points)@.len(),
        forall|k: int| 0 <= k < final(points)@.len() ==> rect.contains(#[trigger] final(points)@[k]),
{
    let ghost ordered = points@;
    shuffle(points, rng);
    proof {
        assert(points@.len() == ordered.len()) by {
            assert(points@.to_multiset().len() == ordered.to_multiset().len());
        }
        assert forall|k: int| 0 <= k < points@.len() implies rect.contains(#[trigger] points@[k]) by {
            assert(points@.contains(points@[k]));
            assert(points@.to_multiset().count(points@[k]) > 0);
            assert(ordered.contains(points@[k]));
        }
    }

}

/// The centers of the regions: the last points of the list, one per value
/// of `regions_data`, each heard of by the collector with its value.
fn initialize_centers<D, C: Collector<D>>(
    rect: Rect,
    points: &Vec<CoordPair>,
    regions_data: &Vec<D>,
    collector: &mut C,
) -> (r: Result<Vec<CoordPair>, C::Error>)
    requires
        regions_data@.len() <= points@.len(),
        forall|k: int| 0 <= k < points@.len() ==> rect.contains(#[trigger] points@[k]),
    ensures
        r matches Ok(centers) ==> centers@ == points@.subrange(
            points@.len() - regions_data@.len(),
            points@.len() as int,
        ),
        r matches Ok(centers) ==> centers@.len() == regions_data@.len() && forall|k: int|
            0 <= k < centers@.len() ==> rect.contains(#[trigger] centers@[k]),
        old(collector).open_to(0) ==> r is Ok && final(collector).open_to(regions_data@.len()),
{
    let n = regions_data.len();
    let len = points.len();
    let mut centers: Vec<CoordPair> = Vec::new();
    let mut i: usize = 0;
    while i < n
        invariant
            n == regions_data@.len(),
            n <= len,
            len == points@.len(),
            i <= n,
            centers@.len() == i,
            centers@ == points@.subrange(len - n, len - n + i),
            old(collector).open_to(0) ==> collector.open_to(i as nat),
            forall|k: int| 0 <= k < points@.len() ==> rect.contains(#[trigger] points@[k]),
            forall|k: int| 0 <= k < centers@.len() ==> rect.contains(#[trigger] centers@[k]),
        decreases n - i,
    {
        let center = points[len - n + i];
        match collector.add_region(center, &regions_data[i]) {
            Ok(()) => {},
            Err(e) => return Err(e),
        }
        centers.push(center);
        proof {
            assert(centers@ =~= points@.subrange(len - n, len - n + i + 1));
        }
        i = i + 1;
    }

    Ok(centers)
}

/// The flags of the free points of `rect`: all but the centers; and their
/// number.
fn converting_available_points(rect: Rect, centers: &Vec<CoordPair>) -> (r: (Vec<bool>, usize))
    requires
        forall|k: int| 0 <= k < centers@.len() ==> rect.contains(#[trigger] centers@[k]),
    ensures
        r.0@.len() == rect.size.x * rect.size.y,
        r.1 == trues(r.0@),
        forall|k: int| 0 <= k < centers@.len() ==> taken_at(rect, r.0@, #[trigger] centers@[k]),
        forall|p: CoordPair| #[trigger] taken_at(rect, r.0@, p) ==> centers@.contains(p),
{
    let n = centers.len();
    let ghost area = rect.size.x * rect.size.y;
    let y: usize = rect.size.y as usize;
    let x: usize = rect.size.x as usize;
    assert(y * x == area && area <= 0xFFFF * 0xFFFF) by (nonlinear_arith)
        requires
            y == rect.size.y,
            x == rect.size.x,
            y <= 0xFFFF,
            x <= 0xFFFF,
            area == rect.size.x * rect.size.y,
    ;
    let len: usize = y * x;
    let mut i: usize = 0;
    let area_exec: usize = len;
    let mut free: Vec<bool> = Vec::new();
    while free.len() < area_exec
        invariant
            area_exec == area,
            free@.len() <= area_exec,
            forall|k: int| 0 <= k < free@.len() ==> free@[k],
        decreases area_exec - free@.len(),
    {
        free.push(true);
    }
    proof {
        lemma_trues_all(free@);
        assert forall|p: CoordPair| !taken_at(rect, free@, p) by {
            if rect.contains(p) {
                lemma_flat_index_bounds(rect, p);
            }
        }
    }
    let mut count: usize = area_exec;
    while i < n
        invariant
            n == centers@.len(),
            i <= n,
            free@.len() == area,
            area == rect.size.x * rect.size.y,
            count == trues(free@),
            forall|k: int| 0 <= k < centers@.len() ==> rect.contains(#[trigger] centers@[k]),
            forall|k: int| 0 <= k < i ==> taken_at(rect, free@, #[trigger] centers@[k]),
            forall|p: CoordPair| #[trigger] taken_at(rect, free@, p) ==> centers@.subrange(0, i as int).contains(p),
        decreases n - i,
    {
        let center = centers[i];
        let index = index_of(rect, center);
        let ghost before = free@;
        if free[index] {
            proof {
                lemma_trues_clear(free@, index as int);
            }
            free.set(index, false);
            count = count - 1;
        }
        proof {
            lemma_flat_index_bounds(rect, center);
            assert(!free@[index as int]);
            assert forall|k: int| 0 <= k <= i implies taken_at(rect, free@, #[trigger] centers@[k]) by {
                lemma_flat_index_bounds(rect, centers@[k]);
                if k < i {
                    assert(taken_at(rect, before, centers@[k]));
                }
            }
            assert forall|p: CoordPair| #[trigger] taken_at(rect, free@, p) implies centers@.subrange(0, i + 1).contains(p) by {
                if p == center {
                    assert(centers@.subrange(0, i + 1)[i as int] == center);
                } else {
                    lemma_flat_index_bounds(rect, p);
                    if flat_index(rect, p) == index {
                        lemma_flat_index_injective(rect, p, center);
                    }
                    assert(taken_at(rect, before, p));
                    let j = choose|j: int| 0 <= j < i && centers@.subrange(0, i as int)[j] == p;
                    assert(centers@.subrange(0, i + 1)[j] == p);
                }
            }
        }
        i = i + 1;
    }
    assert(centers@.subrange(0, n as int) =~= centers@);

    (free, count)
}

/// Grows each region from its center: the center takes the region's value,
/// and its free neighbors join the region's frontier.
fn initialize_region_frontiers<L, De, C>(
    layer: &L,
    regions_data: &Vec<L::Data>,
    centers: &Vec<CoordPair>,
    rect: Rect,
    free: &Vec<bool>,
    map: &mut GameMap,
    collector: &mut C,
    Ghost(regions): Ghost<nat>,
) -> (r: Result<Vec<(usize, CoordPair)>, Error<L::Error, De, C::Error>>) where
    L: Layer,
    L::Data: Clone,
    C: Collector<L::Data>,

    requires
        old(map).wf(),
        old(map).rect_spec() == rect,
        centers@.len() == regions_data@.len(),
        free@.len() == rect.size.x * rect.size.y,
        forall|k: int| 0 <= k < centers@.len() ==> rect.contains(#[trigger] centers@[k]),
        forall|k: int| 0 <= k < centers@.len() ==> taken_at(rect, free@, #[trigger] centers@[k]),
        forall|p: CoordPair| #[trigger] taken_at(rect, free@, p) ==> centers@.contains(p),
    ensures
        final(map).wf(),
        final(map).rect_spec() == rect,
        !(r matches Err(Error::DataDistr(_))),
        old(collector).open_to(regions) && regions_data@.len() <= regions && writes_all(layer, rect, regions_data@)
            ==> r is Ok && final(collector).open_to(regions),
        r matches Ok(frontiers) ==> {
            &&& entries_wf(rect, frontiers@, regions_data@.len() as int)
            &&& covers(rect, free@, frontiers@, Seq::<CoordPair>::empty())
            &&& forall|p: CoordPair| #[trigger] taken_at(rect, free@, p) ==> filled(layer, *final(map), regions_data@, p)
        },
{
    let n = regions_data.len();
    let ghost data = regions_data@;
    let ghost area = rect.size.x * rect.size.y;
    assert(centers@.subrange(0, n as int) =~= centers@);
    let mut frontiers: Vec<(usize, CoordPair)> = Vec::new();
    let mut region: usize = 0;
    while region < n
        invariant
            n == centers@.len(),
            n == regions_data@.len(),
            data == regions_data@,
            region <= n,
            map.wf(),
            map.rect_spec() == rect,
            rect == old(map).rect_spec(),
            free@.len() == area,
            area == rect.size.x * rect.size.y,
            forall|k: int| 0 <= k < centers@.len() ==> rect.contains(#[trigger] centers@[k]),
            forall|k: int| 0 <= k < n ==> taken_at(rect, free@, #[trigger] centers@[k]),
            forall|p: CoordPair| #[trigger] taken_at(rect, free@, p) ==> centers@.contains(p),
            forall|k: int| 0 <= k < region ==> filled(layer, *map, data, #[trigger] centers@[k]),
            entries_wf(rect, frontiers@, n as int),
            covers(rect, free@, frontiers@, centers@.subrange(region as int, n as int)),
            old(collector).open_to(regions) && n <= regions && writes_all(layer, rect, data) ==> collector.open_to(
                regions,
            ),
        decreases n - region,
    {
        let center = centers[region];
        let ghost m0 = *map;
        let ghost f0 = frontiers@;
        proof {
            if writes_all(layer, rect, data) {
                assert(writes_clones(layer, m0, center, data[region as int]));
            }
        }
        match expand_point(layer, regions_data, region, center, rect, free, map, collector, &mut frontiers, Ghost(regions)) {
            Ok(()) => {},
            Err(e) => return Err(e),
        }
        proof {
            assert(filled(layer, *map, data, center));
            assert forall|k: int| 0 <= k < region + 1 implies filled(layer, *map, data, #[trigger] centers@[k]) by {
                if centers@[k] != center {
                    assert(filled(layer, m0, data, centers@[k]));
                    assert(layer.value_at(*map, centers@[k]) == layer.value_at(m0, centers@[k]));
                }
            }
            assert forall|k: int| 0 <= k < frontiers@.len() implies (#[trigger] frontiers@[k]).0 < n && rect.contains(
                frontiers@[k].1,
            ) by {
                if k < f0.len() {
                    assert(frontiers@.subrange(0, f0.len() as int)[k] == f0[k]);
                }
            }
            let later = centers@.subrange(region + 1, n as int);
            let now = centers@.subrange(region as int, n as int);
            assert forall|p: CoordPair, q: CoordPair|
                #![trigger adjacent(p, q)]
                open_at(rect, free@, p) && taken_at(rect, free@, q) && adjacent(p, q) && !later.contains(q) implies listed(
                frontiers@,
                p,
            ) by {
                if q == center {
                    assert(open_at(rect, free@, p) && adjacent(center, p));
                } else {
                    if now.contains(q) {
                        let j = choose|j: int| 0 <= j < now.len() && now[j] == q;
                        assert(j != 0);
                        assert(later[j - 1] == q);
                    }
                    let k = choose|k: int| 0 <= k < f0.len() && (#[trigger] f0[k]).1 == p;
                    assert(frontiers@.subrange(0, f0.len() as int)[k] == f0[k]);
                    assert(frontiers@[k].1 == p);
                }
            }
        }
        region = region + 1;
    }
    proof {
        assert forall|p: CoordPair| #[trigger] taken_at(rect, free@, p) implies filled(layer, *map, data, p) by {
            let k = choose|k: int| 0 <= k < centers@.len() && centers@[k] == p;
            assert(filled(layer, *map, data, centers@[k]));
        }
        assert(centers@.subrange(n as int, n as int) =~= Seq::<CoordPair>::empty());
    }

    Ok(frontiers)
}

/// Grows the regions, a random slice of their frontiers at a time, until no
/// point of the map is left free.
fn expanding_region_frontiers<L, De, C>(
    layer: &L,
    regions_data: &Vec<L::Data>,
    rect: Rect,
    free: Vec<bool>,
    count: usize,
    frontiers: Vec<(usize, CoordPair)>,
    first: CoordPair,
    map: &mut GameMap,
    rng: &mut PickedReproducibleRng,
    collector: &mut C,
    Ghost(regions): Ghost<nat>,
) -> (r: Result<(), Error<L::Error, De, C::Error>>) where L: Layer, L::Data: Clone, C: Collector<L::Data>
    requires
        old(map).wf(),
        old(map).rect_spec() == rect,
        rect.top_left.y + rect.size.y <= 0xFFFF,
        rect.top_left.x + rect.size.x <= 0xFFFF,
        free@.len() == rect.size.x * rect.size.y,
        count == trues(free@),
        taken_at(rect, free@, first),
        forall|p: CoordPair| #[trigger] taken_at(rect, free@, p) ==> filled(layer, *old(map), regions_data@, p),
        entries_wf(rect, frontiers@, regions_data@.len() as int),
        covers(rect, free@, frontiers@, Seq::<CoordPair>::empty()),
    ensures
        final(map).wf(),
        final(map).rect_spec() == rect,
        !(r matches Err(Error::DataDistr(_))),
        old(collector).open_to(regions) && regions_data@.len() <= regions && writes_all(layer, rect, regions_data@)
            ==> r is Ok,
        r is Ok ==> forall|p: CoordPair| #[trigger] rect.contains(p) ==> filled(layer, *final(map), regions_data@, p),
{
    let n = regions_data.len();
    let ghost data = regions_data@;
    let ghost area = rect.size.x * rect.size.y;
    let mut free = free;
    let mut count = count;
    let mut frontiers = frontiers;
    while count > 0
        invariant
            n == regions_data@.len(),
            data == regions_data@,
            map.wf(),
            map.rect_spec() == rect,
            rect == old(map).rect_spec(),
            rect.top_left.y + rect.size.y <= 0xFFFF,
            rect.top_left.x + rect.size.x <= 0xFFFF,
            free@.len() == area,
            area == rect.size.x * rect.size.y,
            count == trues(free@),
            taken_at(rect, free@, first),
            forall|p: CoordPair| #[trigger] taken_at(rect, free@, p) ==> filled(layer, *map, data, p),
            entries_wf(rect, frontiers@, n as int),
            covers(rect, free@, frontiers@, Seq::<CoordPair>::empty()),
            old(collector).open_to(regions) && n <= regions && writes_all(layer, rect, data) ==> collector.open_to(
                regions,
            ),
        decreases count, frontiers@.len(),
    {
        let ghost f_before = frontiers@;
        shuffle(&mut frontiers, rng);
        let ghost shuffled = frontiers@;
        proof {
            assert(shuffled.len() == f_before.len()) by {
                assert(shuffled.to_multiset().len() == f_before.to_multiset().len());
            }
            assert forall|k: int| 0 <= k < shuffled.len() implies (#[trigger] shuffled[k]).0 < n && rect.contains(
                shuffled[k].1,
            ) by {
                assert(shuffled.contains(shuffled[k]));
                assert(shuffled.to_multiset().count(shuffled[k]) > 0);
                assert(f_before.contains(shuffled[k]));
            }
            assert forall|p: CoordPair, q: CoordPair|
                #![trigger adjacent(p, q)]
                open_at(rect, free@, p) && taken_at(rect, free@, q) && adjacent(p, q) && !Seq::<CoordPair>::empty().contains(
                    q,
                ) implies listed(shuffled, p) by {
                assert(listed(f_before, p));
                lemma_listed_permuted(f_before, shuffled, p);
            }
            lemma_trues_some(free@);
            let index = choose|index: int| 0 <= index < free@.len() && free@[index];
            let a = lemma_point_at(rect, index);
            lemma_meeting_point(rect, free@, a, first);
            let (p, q) = choose|p: CoordPair, q: CoordPair|
                open_at(rect, free@, p) && taken_at(rect, free@, q) && #[trigger] adjacent(p, q);
            assert(listed(shuffled, p));
        }
        let len = frontiers.len();
        let process_count = if len - 1 > 1 {
            len - 1
        } else {
            1
        };
        let start = len - process_count;
        let mut batch = frontiers.split_off(start);
        let ghost c0 = count;
        proof {
            assert(shuffled =~= frontiers@ + batch@);
        }
        while batch.len() > 0
            invariant
                n == regions_data@.len(),
                data == regions_data@,
                map.wf(),
                map.rect_spec() == rect,
                rect == old(map).rect_spec(),
                free@.len() == area,
                area == rect.size.x * rect.size.y,
                count == trues(free@),
                count <= c0,
                count == c0 ==> frontiers@.len() == start,
                taken_at(rect, free@, first),
                forall|p: CoordPair| #[trigger] taken_at(rect, free@, p) ==> filled(layer, *map, data, p),
                entries_wf(rect, frontiers@, n as int),
                entries_wf(rect, batch@, n as int),
                covers(rect, free@, frontiers@ + batch@, Seq::<CoordPair>::empty()),
                old(collector).open_to(regions) && n <= regions && writes_all(layer, rect, data) ==> collector.open_to(
                    regions,
                ),
            decreases batch@.len(),
        {
            let ghost b0 = batch@;
            let ghost f0 = frontiers@;
            let ghost free0 = free@;
            let ghost m0 = *map;
            let (region, point) = match batch.pop() {
                Some(entry) => entry,
                None => (0, CoordPair { y: 0, x: 0 }),
            };
            proof {
                assert(b0[b0.len() - 1] == (region, point));
                assert(region < n && rect.contains(point));
            }
            let index = index_of(rect, point);
            if free[index] {
                proof {
                    lemma_trues_clear(free@, index as int);
                }
                free.set(index, false);
                count = count - 1;
                proof {
                    if writes_all(layer, rect, data) {
                        assert(writes_clones(layer, m0, point, data[region as int]));
                    }
                }
                match expand_point(
                    layer,
                    regions_data,
                    region,
                    point,
                    rect,
                    &free,
                    map,
                    collector,
                    &mut frontiers,
                    Ghost(regions),
                ) {
                    Ok(()) => {},
                    Err(e) => return Err(e),
                }
                proof {
                    lemma_flat_index_bounds(rect, point);
                    assert(taken_at(rect, free@, first)) by {
                        lemma_flat_index_bounds(rect, first);
                        if flat_index(rect, first) == index {
                            lemma_flat_index_injective(rect, first, point);
                        }
                    }
                    assert forall|p: CoordPair| #[trigger] taken_at(rect, free@, p) implies filled(layer, *map, data, p) by {
                        if p != point {
                            lemma_flat_index_bounds(rect, p);
                            if flat_index(rect, p) == index {
                                lemma_flat_index_injective(rect, p, point);
                            }
                            assert(taken_at(rect, free0, p));
                            assert(filled(layer, m0, data, p));
                            assert(layer.value_at(*map, p) == layer.value_at(m0, p));
                        }
                    }
                    assert forall|k: int| 0 <= k < frontiers@.len() implies (#[trigger] frontiers@[k]).0 < n && rect.contains(
                        frontiers@[k].1,
                    ) by {
                        if k < f0.len() {
                            assert(frontiers@.subrange(0, f0.len() as int)[k] == f0[k]);
                        }
                    }
                    assert forall|p: CoordPair, q: CoordPair|
                        #![trigger adjacent(p, q)]
                        open_at(rect, free@, p) && taken_at(rect, free@, q) && adjacent(p, q)
                            && !Seq::<CoordPair>::empty().contains(q) implies listed(frontiers@ + batch@, p) by {
                        if q == point {
                            let k = choose|k: int| 0 <= k < frontiers@.len() && (#[trigger] frontiers@[k]).1 == p;
                            assert((frontiers@ + batch@)[k] == frontiers@[k]);
                        } else {
                            lemma_flat_index_bounds(rect, q);
                            lemma_flat_index_bounds(rect, p);
                            if flat_index(rect, q) == index {
                                lemma_flat_index_injective(rect, q, point);
                            }
                            if flat_index(rect, p) == index {
                                lemma_flat_index_injective(rect, p, point);
                            }
                            assert(open_at(rect, free0, p) && taken_at(rect, free0, q));
                            let old_all = f0 + b0;
                            let k = choose|k: int| 0 <= k < old_all.len() && (#[trigger] old_all[k]).1 == p;
                            assert(k != old_all.len() - 1);
                            if k < f0.len() {
                                assert(frontiers@.subrange(0, f0.len() as int)[k] == f0[k]);
                                assert((frontiers@ + batch@)[k] == frontiers@[k]);
                            } else {
                                let j = k - f0.len();
                                assert(batch@[j] == b0[j]);
                                assert((frontiers@ + batch@)[frontiers@.len() + j] == batch@[j]);
                            }
                        }
                    }
                }
            } else {
                proof {
                    assert forall|p: CoordPair, q: CoordPair|
                        #![trigger adjacent(p, q)]
                        open_at(rect, free@, p) && taken_at(rect, free@, q) && adjacent(p, q)
                            && !Seq::<CoordPair>::empty().contains(q) implies listed(frontiers@ + batch@, p) by {
                        let old_all = f0 + b0;
                        let k = choose|k: int| 0 <= k < old_all.len() && (#[trigger] old_all[k]).1 == p;
                        assert(k != old_all.len() - 1);
                        if k < f0.len() {
                            assert((frontiers@ + batch@)[k] == frontiers@[k]);
                        } else {
                            let j = k - f0.len();
                            assert(batch@[j] == b0[j]);
                            assert((frontiers@ + batch@)[frontiers@.len() + j] == batch@[j]);
                        }
                    }
                }
            }
        }
        proof {
            assert(frontiers@ + batch@ =~= frontiers@);
        }
    }
    proof {
        assert forall|p: CoordPair| #[trigger] old(map).rect_spec().contains(p) implies filled(layer, *map, data, p) by {
            lemma_flat_index_bounds(rect, p);
            if free@[flat_index(rect, p)] {
                let s = free@;
                assert(trues(s) == 0);
                lemma_trues_clear(s, flat_index(rect, p));
            }
            assert(taken_at(rect, free@, p));
        }
    }    Ok(())
}

/// Grows one region per value of `regions_data` over the map, writing each
/// region's value at each of its points: the centers are the last points of
/// a shuffled list of the map's points, and the regions then grow, a random
/// slice of their frontiers at a time, until no point is left free. Stops at
/// the first error of the layer or of the collector.
pub fn fill_regions<L, De, C>(
    layer: &L,
    regions_data: &Vec<L::Data>,
    map: &mut GameMap,
    rng: &mut PickedReproducibleRng,
    collector: &mut C,
) -> (r: Result<(), Error<L::Error, De, C::Error>>) where L: Layer, L::Data: Clone, C: Collector<L::Data>
    requires
        old(map).wf(),
        1 <= regions_data@.len() <= old(map).rect_spec().size.x * old(map).rect_spec().size.y,
    ensures
        final(map).wf(),
        final(map).rect_spec() == old(map).rect_spec(),
        !(r matches Err(Error::DataDistr(_))),
        writes_all(layer, old(map).rect_spec(), regions_data@) && old(collector).open_to(0) ==> r is Ok,
        r is Ok ==> forall|p: CoordPair|
            #[trigger] old(map).rect_spec().contains(p) ==> filled(layer, *final(map), regions_data@, p),
{
    proof {
        map.lemma_wf_fits();
    }
    let rect = map.rect();
    let mut points = initialize_available_points(rect);
    shuffle_available_points(rect, &mut points, rng);
    let centers = match initialize_centers(rect, &points, regions_data, collector) {
        Ok(centers) => centers,
        Err(e) => return Err(Error::Collection(e)),
    };
    let (free, count) = converting_available_points(rect, &centers);
    let frontiers = match initialize_region_frontiers(
        layer,
        regions_data,
        &centers,
        rect,
        &free,
        map,
        collector,
        Ghost(regions_data@.len()),
    ) {
        Ok(frontiers) => frontiers,
        Err(e) => return Err(e),
    };
    proof {
        assert(taken_at(rect, free@, centers@[0]));
    }
    expanding_region_frontiers(
        layer,
        regions_data,
        rect,
        free,
        count,
        frontiers,
        centers[0],
        map,
        rng,
        collector,
        Ghost(regions_data@.len()),
    )
}

/// Why a configuration of region counts was refused.
#[derive(Debug, Clone, Copy, PartialEq)]
pub enum InvalidRegionConfig {
    /// The least ratio would exceed the greatest.
    CountBoundOrder { min: Ratio, max: Ratio },
    /// The peak ratio would fall outside of the least and greatest.
    PeakOutOfBounds { min: Ratio, peak: Ratio, max: Ratio },
    /// The ratio is not within `[0, 1]`.
    RatioRange { ratio: Ratio },
}

/// Whether the value of `ratio` exceeds one.
pub open spec fn over_one(ratio: Ratio) -> bool {
    ratio.numer_spec() > ratio.denom_spec()
}

/// How many regions to make, as ratios of the map's width plus height: the
/// least, the greatest and the most likely.
#[derive(Debug, Clone)]
pub struct Config {
    min_region_count: Ratio,
    max_region_count: Ratio,
    peak_region_count: Ratio,
}

impl Config {
    /// The least ratio.
    pub closed spec fn min_spec(self) -> Ratio {
        self.min_region_count
    }

    /// The greatest ratio.
    pub closed spec fn max_spec(self) -> Ratio {
        self.max_region_count
    }

    /// The most likely ratio.
    pub closed spec fn peak_spec(self) -> Ratio {
        self.peak_region_count
    }

    /// The configuration with 1/30 as least ratio, 1/10 as greatest and 1/20
    /// as most likely.
    pub fn new() -> (r: Config)
        ensures
            r.min_spec().numer_spec() == 1 && r.min_spec().denom_spec() == 30,
            r.max_spec().numer_spec() == 1 && r.max_spec().denom_spec() == 10,
            r.peak_spec().numer_spec() == 1 && r.peak_spec().denom_spec() == 20,
    {
        Config {
            min_region_count: Ratio::new(1, 30),
            max_region_count: Ratio::new(1, 10),
            peak_region_count: Ratio::new(1, 20),
        }
    }

    /// This configuration with `ratio` as least ratio; refused where the ratio
    /// exceeds one, the greatest ratio or the most likely one, checked in this
    /// order.
    pub fn with_min_region_count(self, ratio: Ratio) -> (r: Result<Config, InvalidRegionConfig>)
        ensures
            match r {
                Ok(c) => !over_one(ratio) && !self.max_spec().lt_spec(ratio) && !self.peak_spec().lt_spec(ratio)
                    && c.min_spec() == ratio && c.max_spec() == self.max_spec() && c.peak_spec() == self.peak_spec(),
                Err(e) => e == if over_one(ratio) {
                    InvalidRegionConfig::RatioRange { ratio }
                } else if self.max_spec().lt_spec(ratio) {
                    InvalidRegionConfig::CountBoundOrder { min: ratio, max: self.max_spec() }
                } else {
                    InvalidRegionConfig::PeakOutOfBounds { min: ratio, peak: self.peak_spec(), max: self.max_spec() }
                } && (over_one(ratio) || self.max_spec().lt_spec(ratio) || self.peak_spec().lt_spec(ratio)),
            },
    {
        if ratio.gt(&Ratio::one()) {
            return Err(InvalidRegionConfig::RatioRange { ratio });
        }
        if ratio.gt(&self.max_region_count) {
            return Err(InvalidRegionConfig::CountBoundOrder { min: ratio, max: self.max_region_count });
        }
        if ratio.gt(&self.peak_region_count) {
            return Err(
                InvalidRegionConfig::PeakOutOfBounds {
                    min: ratio,
                    peak: self.peak_region_count,
                    max: self.max_region_count,
                },
            );
        }
        Ok(Config { min_region_count: ratio, ..self })
    }

    /// This configuration with `ratio` as greatest ratio; refused where the
    /// ratio exceeds one, or is below the least ratio or the most likely one,
    /// checked in this order.
    pub fn with_max_region_count(self, ratio: Ratio) -> (r: Result<Config, InvalidRegionConfig>)
        ensures
            match r {
                Ok(c) => !over_one(ratio) && !ratio.lt_spec(self.min_spec()) && !ratio.lt_spec(self.peak_spec())
                    && c.max_spec() == ratio && c.min_spec() == self.min_spec() && c.peak_spec() == self.peak_spec(),
                Err(e) => e == if over_one(ratio) {
                    InvalidRegionConfig::RatioRange { ratio }
                } else if ratio.lt_spec(self.min_spec()) {
                    InvalidRegionConfig::CountBoundOrder { min: self.min_spec(), max: ratio }
                } else {
                    InvalidRegionConfig::PeakOutOfBounds { min: self.min_spec(), peak: self.peak_spec(), max: ratio }
                } && (over_one(ratio) || ratio.lt_spec(self.min_spec()) || ratio.lt_spec(self.peak_spec())),
            },
    {
        if ratio.gt(&Ratio::one()) {
            return Err(InvalidRegionConfig::RatioRange { ratio });
        }
        if self.min_region_count.gt(&ratio) {
            return Err(InvalidRegionConfig::CountBoundOrder { min: self.min_region_count, max: ratio });
        }
        if self.peak_region_count.gt(&ratio) {
            return Err(
                InvalidRegionConfig::PeakOutOfBounds {
                    min: self.min_region_count,
                    peak: self.peak_region_count,
                    max: ratio,
                },
            );
        }
        Ok(Config { max_region_count: ratio, ..self })
    }

    /// This configuration with `ratio` as most likely ratio; refused where the
    /// ratio exceeds one, or falls outside of the least and greatest ratios.
    pub fn with_peak_region_count(self, ratio: Ratio) -> (r: Result<Config, InvalidRegionConfig>)
        ensures
            match r {
                Ok(c) => !over_one(ratio) && !ratio.lt_spec(self.min_spec()) && !self.max_spec().lt_spec(ratio)
                    && c.peak_spec() == ratio && c.min_spec() == self.min_spec() && c.max_spec() == self.max_spec(),
                Err(e) => e == if over_one(ratio) {
                    InvalidRegionConfig::RatioRange { ratio }
                } else {
                    InvalidRegionConfig::PeakOutOfBounds { min: self.min_spec(), peak: ratio, max: self.max_spec() }
                } && (over_one(ratio) || ratio.lt_spec(self.min_spec()) || self.max_spec().lt_spec(ratio)),
            },
    {
        if ratio.gt(&Ratio::one()) {
            return Err(InvalidRegionConfig::RatioRange { ratio });
        }
        if self.min_region_count.gt(&ratio) || ratio.gt(&self.max_region_count) {
            return Err(
                InvalidRegionConfig::PeakOutOfBounds {
                    min: self.min_region_count,
                    peak: ratio,
                    max: self.max_region_count,
                },
            );
        }
        Ok(Config { peak_region_count: ratio, ..self })
    }

    /// The least, most likely and greatest region counts for a map of
    /// `map_size`, from which the count is drawn: each is the greatest ratio
    /// times the map's width plus height, rounded down, and at most the width
    /// plus height.
    pub fn count_bounds(&self, map_size: CoordPair) -> (r: (u64, u64, u64))
        requires
            map_size.y + map_size.x <= Coord::MAX,
        ensures
            r.0 == r.1 && r.1 == r.2,
            r.0 == if self.max_spec().floor_mul_spec(map_size.y + map_size.x) < map_size.y + map_size.x {
                self.max_spec().floor_mul_spec(map_size.y + map_size.x)
            } else {
                map_size.y + map_size.x
            },
    {
        let unified = (map_size.x + map_size.y) as u64;
        let mut actual_min = self.min_region_count.ceil_mul_capped(unified, unified);
        let mut actual_peak = self.peak_region_count.floor_mul_capped(unified, unified);
        let mut actual_max = self.max_region_count.floor_mul_capped(unified, unified);
        if actual_min < unified {
            actual_min = unified;
        }
        if actual_max > unified {
            actual_max = unified;
        }
        if actual_min > actual_max {
            actual_min = actual_max;
        }
        actual_max = actual_min;
        if actual_peak < actual_min {
            actual_peak = actual_min;
        }
        if actual_peak > actual_max {
            actual_peak = actual_max;
        }
        (actual_min, actual_peak, actual_max)
    }
}

impl Default for Config {
    fn default() -> (r: Config)
        ensures
            r.min_spec().numer_spec() == 1 && r.min_spec().denom_spec() == 30,
            r.max_spec().numer_spec() == 1 && r.max_spec().denom_spec() == 10,
            r.peak_spec().numer_spec() == 1 && r.peak_spec().denom_spec() == 20,
    {
        Config::new()
    }
}

/// The generator of a layer by regions, with the number of regions drawn.
#[derive(Debug)]
pub struct Generator {
    region_count: usize,
}

impl Generator {
    /// The number of regions.
    pub closed spec fn region_count_spec(self) -> usize {
        self.region_count
    }

    /// A generator of `region_count` regions.
    pub fn new(region_count: usize) -> (r: Generator)
        ensures
            r.region_count_spec() == region_count,
    {
        Generator { region_count }
    }

    /// The number of regions.
    pub fn region_count(&self) -> (r: usize)
        ensures
            r == self.region_count_spec(),
    {
        self.region_count
    }

    /// How many steps generating the layer of `map` takes: one per region's
    /// value, one per point listed, one each for shuffling, picking the
    /// centers and making the flags, one per center's frontier, and one per
    /// point taken after the centers.
    pub fn progress_goal(&self, map: &GameMap) -> (r: usize)
        requires
            map.wf(),
            self.region_count_spec() <= map.rect_spec().size.x * map.rect_spec().size.y,
            2 * (map.rect_spec().size.x * map.rect_spec().size.y) + self.region_count_spec() + 3 <= usize::MAX,
        ensures
            r == 2 * (map.rect_spec().size.x * map.rect_spec().size.y) + self.region_count_spec() + 3,
    {
        let rect = map.rect();
        let y: usize = rect.size.y as usize;
        let x: usize = rect.size.x as usize;
        assert(y * x == rect.size.x * rect.size.y && y * x <= 0xFFFF * 0xFFFF) by (nonlinear_arith)
            requires
                y == rect.size.y,
                x == rect.size.x,
                y <= 0xFFFF,
                x <= 0xFFFF,
        ;
        let area = y * x;
        let region_count = self.region_count;
        region_count + area + 1 + 1 + 1 + region_count + (area - region_count)
    }

    /// Draws the value of each region, then grows the regions over the map
    /// by `fill_regions`.
    pub fn execute<L, Dd, C>(
        self,
        layer: &L,
        data_distr: &mut Dd,
        map: &mut GameMap,
        rng: &mut PickedReproducibleRng,
        collector: &mut C,
    ) -> (r: Result<(), Error<L::Error, Dd::Error, C::Error>>) where
        L: Layer,
        L::Data: Clone,
        Dd: MutableDistribution<L::Data>,
        C: Collector<L::Data>,

        requires
            old(map).wf(),
            1 <= self.region_count_spec() <= old(map).rect_spec().size.x * old(map).rect_spec().size.y,
        ensures
            final(map).wf(),
            final(map).rect_spec() == old(map).rect_spec(),
            r matches Err(Error::DataDistr(_)) ==> *final(map) == *old(map),
            old(data_distr).always_draws() && accepts_anywhere(layer, old(map).rect_spec()) && old(collector).open_to(
                0,
            ) ==> r is Ok,
            r is Ok ==> exists|data: Seq<L::Data>|
                data.len() == self.region_count_spec() && forall|p: CoordPair|
                    #[trigger] old(map).rect_spec().contains(p) ==> filled(layer, *final(map), data, p),
    {
        let regions_data = match generate_region_data(data_distr, rng, self.region_count) {
            Ok(data) => data,
            Err(e) => return Err(Error::DataDistr(e)),
        };
        proof {
            if accepts_anywhere(layer, map.rect_spec()) {
                assert forall|m: GameMap, p: CoordPair, i: int|
                    m.wf() && m.rect_spec() == map.rect_spec() && map.rect_spec().contains(p) && 0 <= i
                        < regions_data@.len() implies #[trigger] writes_clones(layer, m, p, regions_data@[i]) by {
                    assert forall|v: L::Data| cloned(regions_data@[i], v) implies #[trigger] layer.accepts(m, p, v) by {
                        assert(layer.accepts(m, p, v));
                    }
                }
            }
        }
        let r = fill_regions(layer, &regions_data, map, rng, collector);
        proof {
            if r is Ok {
                assert(regions_data@.len() == self.region_count_spec());
            }
        }
        r
    }
}

} // verus!
