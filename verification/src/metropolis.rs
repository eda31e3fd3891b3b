//! The generic Metropolis sampler: a fixed-length Markov chain over any type
//! that implements the [`Simulatable`] capability, independent of what that
//! type represents.

use vstd::prelude::*;

verus! {

use crate::random::RandomSource;

/// A process the Metropolis sampler can drive: it can weigh a candidate state
/// (`pdf`), propose one (`generate`), and judge a proposed transition
/// (`accept`). Implementations must be pure apart from their use of the passed
/// randomness source, and must not retain chain history.
pub trait Simulatable<T, R: RandomSource>: Sized {
    /// The weight `pdf` returns: a value proportional to the probability
    /// density of a state, a deterministic function of the state and of the
    /// instance's own parameters.
    type Weight;

    /// The instance is in a state fit to drive a chain.
    spec fn ready(&self) -> bool;

    /// The candidate states this instance produces and accepts.
    spec fn valid(&self, v: T) -> bool;

    /// What `pdf` returns on a candidate.
    spec fn spec_pdf(&self, v: T) -> Self::Weight;

    /// The weight of a candidate state; exactly `spec_pdf`, so equal states
    /// always weigh the same.
    fn pdf(&self, v: &T) -> (r: Self::Weight)
        requires
            self.ready(),
            self.valid(*v),
        ensures
            r == self.spec_pdf(*v),
    ;

    /// With no current state, an initial sample (the seed of the chain); with
    /// one, a proposal derived from it by a local perturbation.
    fn generate(&self, current: Option<&T>, rng: &mut R) -> (r: T)
        requires
            self.ready(),
            current matches Some(c) ==> self.valid(*c),
        ensures
            self.valid(r),
    ;

    /// Whether the chain moves from `current` to `proposed`. The seed is
    /// always accepted: with no current state the answer is `true` for every
    /// draw.
    fn accept(&self, current: Option<&T>, proposed: &T, rng: &mut R) -> (r: bool)
        requires
            self.ready(),
            current matches Some(c) ==> self.valid(*c),
            self.valid(*proposed),
        ensures
            current is None ==> r,
    ;

    /// A copy of a candidate, as valid and as heavy as the original; the
    /// sampler records it when a proposal is rejected.
    fn duplicate(&self, v: &T) -> (r: T)
        requires
            self.ready(),
            self.valid(*v),
        ensures
            self.valid(r),
            self.spec_pdf(r) == self.spec_pdf(*v),
    ;
}

/// Run a fixed-length Markov chain of `n` steps over `sim`: seed the chain
/// with a fresh sample, then repeatedly propose a successor and either move to
/// it or record a repeat of the current state. Returns the ordered sequence of
/// `(state, weight)` pairs — always exactly `n` entries, whatever the
/// acceptance outcomes; every recorded state is one `sim` produced, and every
/// recorded weight is that state's `pdf`.
pub fn sample<T, R: RandomSource, S: Simulatable<T, R>>(sim: &S, n: usize, rng: &mut R) -> (r: Vec<
    (T, S::Weight),
>)
    requires
        sim.ready(),
        n >= 1,
    ensures
        r@.len() == n,
        forall|k: int| 0 <= k < n ==> sim.valid((#[trigger] r@[k]).0),
        forall|k: int| 0 <= k < n ==> (#[trigger] r@[k]).1 == sim.spec_pdf(r@[k].0),
{
    let mut results: Vec<(T, S::Weight)> = Vec::new();
    let seed = sim.generate(None, rng);
    let seed_weight = sim.pdf(&seed);
    results.push((seed, seed_weight));
    let mut i: usize = 1;
    while i < n
        invariant
            sim.ready(),
            1 <= i <= n,
            results@.len() == i,
            forall|k: int| 0 <= k < i ==> sim.valid((#[trigger] results@[k]).0),
            forall|k: int| 0 <= k < i ==> (#[trigger] results@[k]).1 == sim.spec_pdf(
                results@[k].0,
            ),
        decreases n - i,
    {
        let proposed = sim.generate(Some(&results[i - 1].0), rng);
        if sim.accept(Some(&results[i - 1].0), &proposed, rng) {
            let weight = sim.pdf(&proposed);
            results.push((proposed, weight));
        } else {
            let repeat = sim.duplicate(&results[i - 1].0);
            let weight = sim.pdf(&repeat);
            results.push((repeat, weight));
        }
        i += 1;
    }
    results
}

} // verus!
