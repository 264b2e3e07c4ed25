//! The distribution of biomes over the regions of the map, by weights.
use vstd::prelude::*;
use std::convert::Infallible;
use crate::domain::matter::Biome;
use crate::gen::random::{random_range_u32, MutableDistribution, PickedReproducibleRng, ProabilityWeight};

verus! {

/// The place of a biome in the declaration order.
pub open spec fn biome_index(biome: Biome) -> int {
    match biome {
        Biome::Plains => 0,
        Biome::Desert => 1,
        Biome::Wasteland => 2,
    }
}

/// The distribution of biomes: for each biome, the sum of the weights of the
/// biomes up to it, in declaration order.
#[derive(Debug)]
pub struct BiomeDist {
    cumulative_weights: [ProabilityWeight; 3],
}

impl BiomeDist {
    /// The distribution's invariant: the sums do not decrease and the last is
    /// positive, so that a draw always falls on a biome.
    #[verifier::type_invariant]
    spec fn drawable(self) -> bool {
        &&& self.cumulative_weights@[0] <= self.cumulative_weights@[1] <= self.cumulative_weights@[2]
        &&& self.cumulative_weights@[2] > 0
    }

    /// The sums of the weights.
    pub closed spec fn cumulative_spec(self) -> Seq<ProabilityWeight> {
        self.cumulative_weights@
    }

    /// The weight of `biome`.
    pub open spec fn weight_spec(self, biome: Biome) -> int {
        let c = self.cumulative_spec();
        if biome_index(biome) == 0 {
            c[0] as int
        } else {
            c[biome_index(biome)] - c[biome_index(biome) - 1]
        }
    }

    /// The distribution with `density_function` giving the weight of each
    /// biome. The weights must add up to a positive `u32`.
    pub fn new<F: Fn(Biome) -> ProabilityWeight>(density_function: F) -> (r: BiomeDist)
        requires
            forall|b: Biome| density_function.requires((b,)),
            forall|w0: u32, w1: u32, w2: u32|
                density_function.ensures((Biome::Plains,), w0) && density_function.ensures((Biome::Desert,), w1)
                    && density_function.ensures((Biome::Wasteland,), w2) ==> 0 < w0 + w1 + w2 <= u32::MAX,
        ensures
            exists|w0: u32, w1: u32, w2: u32|
                density_function.ensures((Biome::Plains,), w0) && density_function.ensures((Biome::Desert,), w1)
                    && density_function.ensures((Biome::Wasteland,), w2) && r.cumulative_spec() == seq![
                    w0,
                    (w0 + w1) as u32,
                    (w0 + w1 + w2) as u32,
                ],
    {
        let w0 = density_function(Biome::Plains);
        let w1 = density_function(Biome::Desert);
        let w2 = density_function(Biome::Wasteland);
        assert(0 < w0 + w1 + w2 <= u32::MAX);
        let r = BiomeDist { cumulative_weights: [w0, w0 + w1, w0 + w1 + w2] };
        assert(r.cumulative_spec() =~= seq![w0, (w0 + w1) as u32, (w0 + w1 + w2) as u32]);
        r
    }

    /// Draws a biome: a number below the sum of all weights, which falls in
    /// the band of one biome. The biome drawn has a positive weight.
    pub fn sample(&self, rng: &mut PickedReproducibleRng) -> (r: Biome)
        ensures
            self.weight_spec(r) > 0,
    {
        proof {
            use_type_invariant(self);
        }
        let last_cumulative_weight = self.cumulative_weights[2];
        let sampled_weight = random_range_u32(rng, 0, last_cumulative_weight);
        let biomes = Biome::all();
        let mut i: usize = 0;
        while i < 3
            invariant
                i <= 3,
                biomes@ == seq![Biome::Plains, Biome::Desert, Biome::Wasteland],
                sampled_weight < self.cumulative_weights@[2],
                self.cumulative_weights@[0] <= self.cumulative_weights@[1] <= self.cumulative_weights@[2],
                forall|j: int| 0 <= j < i ==> self.cumulative_weights@[j] <= sampled_weight,
            decreases 3 - i,
        {
            if sampled_weight < self.cumulative_weights[i] {
                return biomes[i];
            }
            i = i + 1;
        }
        biomes[2]
    }
}

impl Default for BiomeDist {
    /// The distribution with weights 11 for plains, 5 for desert and 4 for
    /// wasteland.
    fn default() -> (r: BiomeDist)
        ensures
            r.cumulative_spec() == seq![11u32, 16u32, 20u32],
    {
        let r = BiomeDist { cumulative_weights: [11, 16, 20] };
        assert(r.cumulative_spec() =~= seq![11u32, 16u32, 20u32]);
        r
    }
}

impl Clone for BiomeDist {
    fn clone(&self) -> (r: BiomeDist)
        ensures
            r.cumulative_spec() == self.cumulative_spec(),
    {
        proof {
            use_type_invariant(self);
        }
        BiomeDist { cumulative_weights: self.cumulative_weights }
    }
}

impl MutableDistribution<Biome> for BiomeDist {
    type Error = Infallible;

    open spec fn always_draws(&self) -> bool {
        true
    }

    fn sample_mut(&mut self, rng: &mut PickedReproducibleRng) -> (r: Result<Biome, Infallible>)
        ensures
            final(self).cumulative_spec() == old(self).cumulative_spec(),
            r matches Ok(b) && old(self).weight_spec(b) > 0,
    {
        Ok(self.sample(rng))
    }
}

} // verus!
