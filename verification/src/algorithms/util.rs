use crate::models::{
    lemma_prefix_weight_monotone, lemma_weight_le_total, prefix_weight, spec_total_weight,
    ModelEvent,
};
use rand::Rng;
use rand::SeedableRng;
use vstd::prelude::*;

verus! {

#[verifier::external_type_specification]
#[verifier::external_body]
pub struct ExStdRng(rand::rngs::StdRng);

/// The engines' source of uniformly distributed integers.  It wraps a
/// seedable pseudo-random generator, passed explicitly into each run so
/// that runs are reproducible under a chosen seed.
pub struct UniformSource {
    rng: rand::rngs::StdRng,
}

impl UniformSource {
    /// Relies on rand::SeedableRng::seed_from_u64: yields a generator whose
    /// stream is determined by `seed`.
    #[verifier::external_body]
    pub fn from_seed(seed: u64) -> UniformSource {
        UniformSource { rng: rand::rngs::StdRng::seed_from_u64(seed) }
    }

    /// Relies on rand::SeedableRng::from_entropy: yields a generator seeded
    /// by the operating system.
    #[verifier::external_body]
    pub fn from_entropy() -> UniformSource {
        UniformSource { rng: rand::rngs::StdRng::from_entropy() }
    }

    /// Relies on rand::Rng::gen_range over `0..bound`: a value strictly
    /// below `bound`, uniformly distributed.  `bound` is positive, so the
    /// range is non-empty and the call does not panic.
    #[verifier::external_body]
    pub(crate) fn pick(&mut self, bound: u128) -> (r: u128)
        requires
            bound > 0,
        ensures
            r < bound,
    {
        self.rng.gen_range(0..bound)
    }
}

/// Sums the weights of one event enumeration: the direct method's total
/// rate, over the enumeration's common denominator.
pub fn total_weight<E: ModelEvent>(events: &Vec<E>) -> (total: u128)
    requires
        spec_total_weight(events@) <= u128::MAX,
    ensures
        total == spec_total_weight(events@),
{
    let mut total: u128 = 0;
    let mut k: usize = 0;
    while k < events.len()
        invariant
            k <= events@.len(),
            spec_total_weight(events@) <= u128::MAX,
            total == prefix_weight(events@, k as int),
        decreases events@.len() - k,
    {
        proof {
            lemma_weight_le_total(events@, k as int);
            lemma_prefix_weight_monotone(events@, k as int + 1, events@.len() as int);
        }
        total = total + events[k].rate();
        k = k + 1;
    }
    total
}

/// Weighted selection: the index of the first event whose cumulative
/// weight exceeds `point`.  Each event with weight `w` owns a sub-interval
/// of length `w` of `[0, total)`, so for a uniformly drawn `point` each
/// event fires with probability proportional to its weight, and an event
/// of weight zero never fires.
pub fn select_event_index<E: ModelEvent>(events: &Vec<E>, point: u128) -> (idx: usize)
    requires
        spec_total_weight(events@) <= u128::MAX,
        point < spec_total_weight(events@),
    ensures
        idx < events@.len(),
        events@[idx as int].spec_weight() > 0,
        prefix_weight(events@, idx as int) <= point < prefix_weight(events@, idx as int + 1),
{
    let mut cumulative: u128 = 0;
    let mut k: usize = 0;
    while k < events.len()
        invariant
            k <= events@.len(),
            spec_total_weight(events@) <= u128::MAX,
            point < spec_total_weight(events@),
            cumulative == prefix_weight(events@, k as int),
            cumulative <= point,
        decreases events@.len() - k,
    {
        proof {
            lemma_weight_le_total(events@, k as int);
            lemma_prefix_weight_monotone(events@, k as int + 1, events@.len() as int);
        }
        let next_cumulative = cumulative + events[k].rate();
        if point < next_cumulative {
            return k;
        }
        cumulative = next_cumulative;
        k = k + 1;
    }
    proof {
        assert(false);
    }
    vstd::pervasive::unreached()
}

} // verus!
