//! The distribution of thedes over the regions of the map: a region either
//! gets a new thede or stays unclaimed.
use vstd::prelude::*;
use crate::domain::thede::{AllocError, Id, Registry};
use crate::gen::random::{random_range_u32, MutableDistribution, PickedReproducibleRng, ProabilityWeight};

verus! {

/// Why no thede could be drawn.
#[derive(Debug, Clone, Copy, PartialEq, Eq)]
pub enum ThedeDistrError {
    /// No identifier was left for a new thede.
    AllocError(AllocError),
}

/// The weights of a new thede and of an unclaimed region.
#[derive(Debug, Clone, Copy)]
pub struct ThedeDistrConfig {
    new_thede_weight: ProabilityWeight,
    unclaimed_weight: ProabilityWeight,
}

impl ThedeDistrConfig {
    /// The weight of a new thede.
    pub closed spec fn new_thede_weight_spec(self) -> ProabilityWeight {
        self.new_thede_weight
    }

    /// The weight of an unclaimed region.
    pub closed spec fn unclaimed_weight_spec(self) -> ProabilityWeight {
        self.unclaimed_weight
    }

    /// The configuration with weight 1 for a new thede and 11 for an
    /// unclaimed region.
    pub fn new() -> (r: ThedeDistrConfig)
        ensures
            r.new_thede_weight_spec() == 1,
            r.unclaimed_weight_spec() == 11,
    {
        ThedeDistrConfig { new_thede_weight: 1, unclaimed_weight: 11 }
    }

    /// This configuration with `weight` for a new thede.
    pub fn with_new_thede_weight(self, weight: ProabilityWeight) -> (r: ThedeDistrConfig)
        ensures
            r.new_thede_weight_spec() == weight,
            r.unclaimed_weight_spec() == self.unclaimed_weight_spec(),
    {
        ThedeDistrConfig { new_thede_weight: weight, ..self }
    }

    /// This configuration with `weight` for an unclaimed region.
    pub fn with_unclaimed_weight(self, weight: ProabilityWeight) -> (r: ThedeDistrConfig)
        ensures
            r.unclaimed_weight_spec() == weight,
            r.new_thede_weight_spec() == self.new_thede_weight_spec(),
    {
        ThedeDistrConfig { unclaimed_weight: weight, ..self }
    }

    /// The distribution, with every identifier free. The two weights must add
    /// up to a positive `u32`, else drawing would fail.
    pub fn finish(self) -> (r: ThedeDistr)
        requires
            0 < self.new_thede_weight_spec() + self.unclaimed_weight_spec() <= u32::MAX,
        ensures
            r.registry_spec().allocated() == Set::<u8>::empty(),
            r.config_spec() == self,
    {
        ThedeDistr { registry: Registry::all_free(), config: self }
    }
}

impl Default for ThedeDistrConfig {
    fn default() -> (r: ThedeDistrConfig)
        ensures
            r.new_thede_weight_spec() == 1,
            r.unclaimed_weight_spec() == 11,
    {
        ThedeDistrConfig::new()
    }
}

/// The distribution of thedes: the registry of the identifiers given out so
/// far, and the weights.
#[derive(Debug)]
pub struct ThedeDistr {
    registry: Registry,
    config: ThedeDistrConfig,
}

impl ThedeDistr {
    /// The distribution's invariant: the weights add up to a positive `u32`.
    #[verifier::type_invariant]
    spec fn weights_fit(self) -> bool {
        0 < self.config.new_thede_weight + self.config.unclaimed_weight <= u32::MAX
    }

    /// The identifiers given out so far.
    pub closed spec fn registry_spec(self) -> Registry {
        self.registry
    }

    /// The weights.
    pub closed spec fn config_spec(self) -> ThedeDistrConfig {
        self.config
    }

    /// The registry of the identifiers given out.
    pub fn finish(self) -> (r: Registry)
        ensures
            r == self.registry_spec(),
    {
        self.registry
    }

    fn cumulative_weight(&self) -> (r: ProabilityWeight)
        ensures
            r == self.config.new_thede_weight + self.config.unclaimed_weight,
            r > 0,
    {
        proof {
            use_type_invariant(self);
        }
        self.config.new_thede_weight + self.config.unclaimed_weight
    }
}

impl Clone for ThedeDistr {
    fn clone(&self) -> (r: ThedeDistr)
        ensures
            r == *self,
    {
        proof {
            use_type_invariant(self);
        }
        ThedeDistr { registry: self.registry, config: self.config }
    }
}

impl Default for ThedeDistr {
    fn default() -> (r: ThedeDistr)
        ensures
            r.registry_spec().allocated() == Set::<u8>::empty(),
            r.config_spec().new_thede_weight_spec() == 1,
            r.config_spec().unclaimed_weight_spec() == 11,
    {
        ThedeDistrConfig::new().finish()
    }
}

impl MutableDistribution<Option<Id>> for ThedeDistr {
    type Error = ThedeDistrError;

    /// Drawing fails only when a new identifier is to be allocated, which a
    /// zero weight for new thedes rules out.
    open spec fn always_draws(&self) -> bool {
        self.config_spec().new_thede_weight_spec() == 0
    }

    /// Draws a number below the total weight: below the weight of a new thede,
    /// a new identifier is allocated; else the region stays unclaimed.
    fn sample_mut(&mut self, rng: &mut PickedReproducibleRng) -> (r: Result<Option<Id>, ThedeDistrError>)
        ensures
            final(self).config_spec() == old(self).config_spec(),
            r matches Ok(None) ==> old(self).config_spec().unclaimed_weight_spec() > 0,
            !(r matches Ok(None)) ==> old(self).config_spec().new_thede_weight_spec() > 0,
            match r {
                Ok(Some(id)) => {
                    &&& id.wf()
                    &&& !old(self).registry_spec().allocated().contains(id.bits_spec())
                    &&& final(self).registry_spec().allocated() == old(self).registry_spec().allocated().insert(
                        id.bits_spec(),
                    )
                    &&& forall|b: u8| 1 <= b < id.bits_spec() ==> old(self).registry_spec().allocated().contains(b)
                },
                Ok(None) => final(self).registry_spec() == old(self).registry_spec(),
                Err(ThedeDistrError::AllocError(e)) => {
                    &&& e == AllocError::Exhausted
                    &&& final(self).registry_spec() == old(self).registry_spec()
                    &&& forall|b: u8| 1 <= b ==> old(self).registry_spec().allocated().contains(b)
                },
            },
    {
        let total = random_range_u32(rng, 0, self.cumulative_weight());
        if total < self.config.new_thede_weight {
            let mut registry = Registry::all_free();
            std::mem::swap(&mut registry, &mut self.registry);
            let r = registry.allocate();
            self.registry = registry;
            match r {
                Ok(id) => Ok(Some(id)),
                Err(e) => Err(ThedeDistrError::AllocError(e)),
            }
        } else {
            Ok(None)
        }
    }
}

} // verus!
