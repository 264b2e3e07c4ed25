//! Reproducible random numbers: a seeded generator and the few draws that
//! generation makes from it.
use vstd::prelude::*;
use rand::Rng;
use rand::SeedableRng;
use rand::distr::Distribution;
use rand::distr::weighted::WeightedIndex;
use rand::seq::SliceRandom;
use crate::domain::geometry::{Coord, CoordPair, Rect};
use crate::geometry::axis::Direction;

verus! {

/// The random number generator of generation: one seed always gives the same numbers.
pub type PickedReproducibleRng = rand_chacha::ChaCha8Rng;

#[verifier::external_type_specification]
#[verifier::external_body]
pub struct ExChaCha8Rng(rand_chacha::ChaCha8Rng);

/// A weight in a discrete distribution.
pub type ProabilityWeight = u32;

/// The seed that a game is generated from.
pub type Seed = u32;

/// The generator that `ChaCha8Rng::from_seed` builds from the bytes of a seed.
pub uninterp spec fn chacha8_from_seed(seed: Seq<u8>) -> PickedReproducibleRng;

/// `<ChaCha8Rng as SeedableRng>::from_seed`. The contract claims only that the
/// generator is a function of the seed's bytes: equal seeds, equal generators.
#[verifier::external_body]
fn rng_from_seed(seed: [u8; 32]) -> (r: PickedReproducibleRng)
    ensures
        r == chacha8_from_seed(seed@),
{
    <PickedReproducibleRng as SeedableRng>::from_seed(seed)
}

/// `Rng::random_range` on the range `low .. high` of `u64`. The contract claims
/// that the number drawn lies in the range; the call panics on an empty range,
/// which `requires` rules out. Which number comes depends on the generator's
/// state and is left unsaid.
#[verifier::external_body]
pub(crate) fn random_range(rng: &mut PickedReproducibleRng, low: u64, high: u64) -> (r: u64)
    requires
        low < high,
    ensures
        low <= r < high,
{
    rng.random_range(low..high)
}

/// `Rng::random_range` on the range `low .. high` of `u32`, as the weighted
/// draws make it. The contract claims that the number drawn lies in the range;
/// the call panics on an empty range, which `requires` rules out. Which number
/// comes depends on the generator's state and is left unsaid.
#[verifier::external_body]
pub(crate) fn random_range_u32(rng: &mut PickedReproducibleRng, low: u32, high: u32) -> (r: u32)
    requires
        low < high,
    ensures
        low <= r < high,
{
    rng.random_range(low..high)
}

/// `Rng::random_range` on the range `low .. high` of `usize`, as the draws of
/// an index make it. The contract claims that the number drawn lies in the
/// range; the call panics on an empty range, which `requires` rules out. Which
/// number comes depends on the generator's state and is left unsaid.
#[verifier::external_body]
pub(crate) fn random_range_usize(rng: &mut PickedReproducibleRng, low: usize, high: usize) -> (r: usize)
    requires
        low < high,
    ensures
        low <= r < high,
{
    rng.random_range(low..high)
}

/// `SliceRandom::shuffle` on the items of a vector. The contract claims that
/// the same items come out, each as many times, in some order; which order
/// depends on the generator's state and is left unsaid.
#[verifier::external_body]
pub(crate) fn shuffle<T>(items: &mut Vec<T>, rng: &mut PickedReproducibleRng)
    ensures
        final(items)@.to_multiset() == old(items)@.to_multiset(),
{
    items.shuffle(rng);
}

/// A distribution that may change as it is drawn from.
pub trait MutableDistribution<T> {
    /// Why no value could be drawn.
    type Error;

    /// Whether drawing cannot fail, now and after any draw.
    spec fn always_draws(&self) -> bool;

    /// Draws a value.
    fn sample_mut(&mut self, rng: &mut PickedReproducibleRng) -> (r: Result<T, Self::Error>)
        ensures
            old(self).always_draws() ==> r is Ok && final(self).always_draws(),
    ;
}

/// The sum of the weights.
pub open spec fn weight_sum(weights: Seq<u32>) -> int
    decreases weights.len(),
{
    if weights.len() == 0 {
        0
    } else {
        weight_sum(weights.drop_last()) + weights.last()
    }
}

/// `WeightedIndex::new` on `weights`, sampled once with `rng`. The contract
/// claims that the index drawn is that of a weight, and of a weight that is not
/// zero. `new` fails only on no weights, a zero sum or an overflowing sum, which
/// `requires` rules out. Which index comes depends on the generator's state and
/// is left unsaid.
#[verifier::external_body]
pub(crate) fn weighted_index(rng: &mut PickedReproducibleRng, weights: &[u32]) -> (r: usize)
    requires
        weights@.len() > 0,
        0 < weight_sum(weights@) <= u32::MAX,
    ensures
        r < weights@.len(),
        weights@[r as int] > 0,
{
    WeightedIndex::new(weights).unwrap().sample(rng)
}

/// Word `i` of the full seed made from `seed`.
pub open spec fn seed_word(seed: Seed, i: u32) -> u32 {
    (seed.wrapping_sub(i) ^ (i << 14u32)) as u32
}

/// Byte `j` of `word` in little-endian order.
pub open spec fn le_byte(word: u32, j: u32) -> u8 {
    ((word >> (8 * j) as u32) & 0xffu32) as u8
}

/// The full seed of the generator made from `seed`: eight words, each written
/// in little-endian order, word `i` being `seed` minus `i` (wrapping) with `i`
/// shifted left by fourteen bits flipped in.
pub open spec fn full_seed(seed: Seed) -> Seq<u8> {
    Seq::new(32, |k: int| le_byte(seed_word(seed, (k / 4) as u32), (k % 4) as u32))
}

/// The full seed of the generator made from `seed`.
pub fn reproducible_seed(seed: Seed) -> (r: [u8; 32])
    ensures
        r@ == full_seed(seed),
{
    let mut full: [u8; 32] = [0u8; 32];
    let mut i: u32 = 0;
    while i < 8
        invariant
            i <= 8,
            full@.len() == 32,
            forall|k: int| 0 <= k < 4 * i ==> #[trigger] full@[k] == full_seed(seed)[k],
        decreases 8 - i,
    {
        let bits = seed.wrapping_sub(i) ^ (i << 14);
        let base: usize = (4 * i) as usize;
        full[base] = (bits & 0xff) as u8;
        full[base + 1] = ((bits >> 8) & 0xff) as u8;
        full[base + 2] = ((bits >> 16) & 0xff) as u8;
        full[base + 3] = ((bits >> 24) & 0xff) as u8;
        proof {
            assert(bits == seed_word(seed, i));
            assert(bits >> 0u32 == bits) by (bit_vector);
            assert forall|k: int| 0 <= k < 4 * (i + 1) implies #[trigger] full@[k] == full_seed(seed)[k] by {
                if k >= 4 * i {
                    assert(k / 4 == i as int);
                }
            }
        }
        i += 1;
    }
    assert(full@ =~= full_seed(seed));
    full
}

/// A generator for `seed`: the same seed always gives the same generator.
pub fn create_reproducible_rng(seed: Seed) -> (r: PickedReproducibleRng)
    ensures
        r == chacha8_from_seed(full_seed(seed)),
{
    let full = reproducible_seed(seed);
    rng_from_seed(full)
}

/// The direction at `i` in the order up, left, down, right.
pub open spec fn direction_at(i: int) -> Direction {
    seq![Direction::Up, Direction::Left, Direction::Down, Direction::Right][i]
}

/// A direction drawn uniformly from the four: the one at the index drawn from
/// `0 .. 4` in the order up, left, down, right.
pub fn random_direction(rng: &mut PickedReproducibleRng) -> (r: Direction)
    ensures
        exists|i: int| 0 <= i < 4 && r == #[trigger] direction_at(i),
{
    let all = Direction::all();
    let index = random_range(rng, 0, 4) as usize;
    let r = all[index];
    assert(r == direction_at(index as int));
    r
}

/// Why a rectangle admits no uniform distribution of its points.
#[derive(Debug, Clone, Copy, PartialEq, Eq)]
pub enum InvalidRectDistr {
    /// The rectangle has no points.
    EmptyArea { rect: Rect },
    /// The rectangle reaches past the last coordinate.
    BottomRightOverflow { rect: Rect },
}

/// The uniform distribution of the points of a rectangle.
#[derive(Debug, Clone, Copy, PartialEq, Eq)]
pub struct UniformRectDistr {
    rect: Rect,
}

/// Whether a uniform distribution can be made of the points of `rect`: it has
/// points and its points all have coordinates.
pub open spec fn uniform_rect_ok(rect: Rect) -> bool {
    &&& rect.size.y > 0
    &&& rect.size.x > 0
    &&& rect.top_left.y + rect.size.y <= Coord::MAX + 1
    &&& rect.top_left.x + rect.size.x <= Coord::MAX + 1
}

/// The error for a rectangle that admits no uniform distribution.
pub open spec fn rect_distr_error(rect: Rect) -> InvalidRectDistr {
    if rect.size.y == 0 || rect.size.x == 0 {
        InvalidRectDistr::EmptyArea { rect }
    } else {
        InvalidRectDistr::BottomRightOverflow { rect }
    }
}

impl UniformRectDistr {
    /// The rectangle whose points are drawn.
    pub closed spec fn rect_spec(self) -> Rect {
        self.rect
    }

    #[verifier::type_invariant]
    spec fn drawable(self) -> bool {
        uniform_rect_ok(self.rect)
    }

    /// The uniform distribution of the points of `rect`.
    pub fn new(rect: Rect) -> (r: Result<UniformRectDistr, InvalidRectDistr>)
        ensures
            match r {
                Ok(d) => uniform_rect_ok(rect) && d.rect_spec() == rect,
                Err(e) => !uniform_rect_ok(rect) && e == rect_distr_error(rect),
            },
    {
        if rect.size.y == 0 || rect.size.x == 0 {
            return Err(InvalidRectDistr::EmptyArea { rect });
        }
        if rect.top_left.y as u32 + rect.size.y as u32 > 0x1_0000 || rect.top_left.x as u32 + rect.size.x as u32 > 0x1_0000 {
            return Err(InvalidRectDistr::BottomRightOverflow { rect });
        }
        Ok(UniformRectDistr { rect })
    }

    /// A point of the rectangle.
    pub fn sample(&self, rng: &mut PickedReproducibleRng) -> (r: CoordPair)
        ensures
            self.rect_spec().contains(r),
    {
        proof {
            use_type_invariant(self);
        }
        let top_left = self.rect.top_left;
        let size = self.rect.size;
        let y = random_range(rng, top_left.y as u64, top_left.y as u64 + size.y as u64);
        let x = random_range(rng, top_left.x as u64, top_left.x as u64 + size.x as u64);
        CoordPair { y: y as Coord, x: x as Coord }
    }
}

} // verus!
