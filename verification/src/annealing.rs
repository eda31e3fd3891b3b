//! The annealing schedule: it binds the tour model to the [`Simulatable`]
//! capability with a temperature-dependent acceptance rule, and runs an outer
//! loop over decreasing temperatures, each level delegating to the Metropolis
//! sampler.

use vstd::prelude::*;

verus! {

use vstd::arithmetic::div_mod::lemma_fundamental_div_mod_converse;
use crate::MAX_CITIES;
use crate::metropolis::{Simulatable, sample};
use crate::random::RandomSource;
use crate::salesman::{Itinerary, fresh_city_placement, is_segment_reversal, spec_tour_cost};

/// A configuration the schedule rejects eagerly, before any sampling: each
/// variant would otherwise cause non-termination or an undefined cost.
#[derive(Clone, Copy, Debug, PartialEq, Eq, Structural)]
pub enum ConfigurationError {
    /// `temperature_step` is zero: the outer loop would never cool.
    NonPositiveTemperatureStep,
    /// `start_temperature` does not exceed `min_temperature`.
    StartNotAboveMinimum,
    /// Fewer than two cities: a single-city closed tour has no defined cost.
    TooFewCities,
    /// A sample size of zero: a chain must have at least one entry.
    ZeroSampleSize,
}

/// The Boltzmann weight `exp(-cost / temperature)` of a tour, represented
/// exactly by the two fixed-point quantities that determine it; evaluating it
/// to a real number is floating-point work for the reporting collaborator.
#[derive(Clone, Copy, Debug, PartialEq, Eq, Structural)]
pub struct BoltzmannWeight {
    pub cost: u64,
    pub temperature: u64,
}

/// What one temperature level reports: the temperature at which its chain ran
/// and the cost of the itinerary adopted at its end.
#[derive(Clone, Copy, Debug, PartialEq, Eq, Structural)]
pub struct LevelRecord {
    pub temperature: u64,
    pub cost: u64,
}

/// How many temperature levels a run starting at `current` performs:
/// `ceil((current - min) / step)`.
pub open spec fn outer_iterations(current: int, min: int, step: int) -> int
    recommends
        step >= 1,
{
    if current <= min {
        0
    } else {
        (current - min + step - 1) / step
    }
}

/// A temperature clamped at zero when a step would fall below it.
pub open spec fn floor_at_zero(x: int) -> int {
    if x >= 0 {
        x
    } else {
        0
    }
}

/// A cooling loop that has stepped `k` times, the last step crossing `min`,
/// has performed exactly `ceil((start - min) / step)` iterations.
proof fn lemma_iteration_count(start: int, min: int, step: int, k: int)
    requires
        step >= 1,
        min >= 0,
        k >= 1,
        start - (k - 1) * step > min,
        start - k * step <= min,
    ensures
        k == outer_iterations(start, min, step),
{
    let a = start - min;
    let r = a + step - 1 - k * step;
    assert(0 <= r < step && a >= 1 && (k - 1) * step >= 0) by (nonlinear_arith)
        requires
            step >= 1,
            k >= 1,
            start - (k - 1) * step > min,
            start - k * step <= min,
            a == start - min,
            r == a + step - 1 - k * step,
    ;
    assert(start > min);
    lemma_fundamental_div_mod_converse(a + step - 1, step, k, r);
}

/// An annealing schedule: the temperature parameters plus the working tour,
/// updated once per temperature level.
pub struct Schedule {
    itinerary: Itinerary,
    temperature_step: u64,
    start_temperature: u64,
    current_temperature: u64,
    min_temperature: u64,
    num_cities: usize,
}

impl Schedule {
    pub closed spec fn spec_itinerary(&self) -> Itinerary {
        self.itinerary
    }

    pub closed spec fn spec_step(&self) -> u64 {
        self.temperature_step
    }

    pub closed spec fn spec_start(&self) -> u64 {
        self.start_temperature
    }

    pub closed spec fn spec_current(&self) -> u64 {
        self.current_temperature
    }

    pub closed spec fn spec_min(&self) -> u64 {
        self.min_temperature
    }

    pub closed spec fn spec_num_cities(&self) -> usize {
        self.num_cities
    }

    /// Well-formedness: validated temperature parameters and a well-formed
    /// working tour of the configured length.
    pub open spec fn wf(&self) -> bool {
        &&& 1 <= self.spec_step()
        &&& self.spec_min() < self.spec_start()
        &&& 2 <= self.spec_num_cities() <= MAX_CITIES
        &&& self.spec_itinerary().wf()
        &&& self.spec_itinerary()@.len() == self.spec_num_cities()
    }

    /// The schedule can drive a chain: well-formed, at a positive temperature.
    pub open spec fn chain_ready(&self) -> bool {
        self.wf() && self.spec_current() >= 1
    }

    /// The candidates the schedule produces and accepts: well-formed tours
    /// over exactly the schedule's own city multiset.
    pub open spec fn candidate_ok(&self, v: Itinerary) -> bool {
        &&& v.wf()
        &&& v@.len() == self.spec_num_cities()
        &&& v@.to_multiset() == self.spec_itinerary()@.to_multiset()
    }

    /// A new annealing schedule over a fresh random tour of `num_cities`
    /// cities, starting at `start_temperature`. The configuration is validated
    /// eagerly: each `ConfigurationError` comes exactly on the inputs its
    /// variant names, checked in that order, and city generation happens only
    /// on a valid configuration.
    pub fn new<R: RandomSource>(
        start_temperature: u64,
        temperature_step: u64,
        min_temperature: u64,
        num_cities: usize,
        rng: &mut R,
    ) -> (r: Result<Schedule, ConfigurationError>)
        requires
            num_cities <= MAX_CITIES,
        ensures
            match r {
                Ok(s) => {
                    &&& temperature_step >= 1
                    &&& start_temperature > min_temperature
                    &&& num_cities >= 2
                    &&& s.wf()
                    &&& s.spec_step() == temperature_step
                    &&& s.spec_start() == start_temperature
                    &&& s.spec_current() == start_temperature
                    &&& s.spec_min() == min_temperature
                    &&& s.spec_num_cities() == num_cities
                    &&& fresh_city_placement(s.spec_itinerary()@, num_cities as int)
                },
                Err(e) => {
                    &&& (e == ConfigurationError::NonPositiveTemperatureStep <==> temperature_step
                        == 0)
                    &&& (e == ConfigurationError::StartNotAboveMinimum <==> temperature_step >= 1
                        && start_temperature <= min_temperature)
                    &&& (e == ConfigurationError::TooFewCities <==> temperature_step >= 1
                        && start_temperature > min_temperature && num_cities < 2)
                },
            },
            r is Ok <==> temperature_step >= 1 && start_temperature > min_temperature
                && num_cities >= 2,
    {
        if temperature_step == 0 {
            return Err(ConfigurationError::NonPositiveTemperatureStep);
        }
        if start_temperature <= min_temperature {
            return Err(ConfigurationError::StartNotAboveMinimum);
        }
        if num_cities < 2 {
            return Err(ConfigurationError::TooFewCities);
        }
        let itinerary = Itinerary::new(num_cities, rng);
        Ok(
            Schedule {
                itinerary,
                temperature_step,
                start_temperature,
                current_temperature: start_temperature,
                min_temperature,
                num_cities,
            },
        )
    }

    /// The working tour.
    pub fn itinerary(&self) -> (r: &Itinerary)
        ensures
            r == self.spec_itinerary(),
    {
        &self.itinerary
    }

    /// The current temperature.
    pub fn current_temperature(&self) -> (r: u64)
        ensures
            r == self.spec_current(),
    {
        self.current_temperature
    }

    /// Run the annealing loop: while the current temperature exceeds the
    /// minimum, run one `sample_size`-step Metropolis chain at the current
    /// temperature, adopt the chain's terminal state as the new working tour,
    /// record `(temperature, new cost)`, and cool by one step (clamped at
    /// zero). Returns the final tour and the per-level records: exactly
    /// `ceil((current - min) / step)` of them, the level `k` record at
    /// temperature `current - k * step`. The final tour is a permutation of
    /// the starting tour's city multiset. A zero sample size is rejected
    /// before any sampling.
    pub fn run<R: RandomSource>(&mut self, sample_size: usize, rng: &mut R) -> (r: Result<
        (Itinerary, Vec<LevelRecord>),
        ConfigurationError,
    >)
        requires
            old(self).wf(),
        ensures
            r is Err <==> sample_size == 0,
            match r {
                Ok(out) => {
                    &&& final(self).wf()
                    &&& final(self).spec_step() == old(self).spec_step()
                    &&& final(self).spec_start() == old(self).spec_start()
                    &&& final(self).spec_min() == old(self).spec_min()
                    &&& final(self).spec_num_cities() == old(self).spec_num_cities()
                    &&& final(self).spec_current() <= final(self).spec_min()
                    &&& final(self).spec_itinerary()@.to_multiset() == old(
                        self,
                    ).spec_itinerary()@.to_multiset()
                    &&& out.1@.len() == outer_iterations(
                        old(self).spec_current() as int,
                        old(self).spec_min() as int,
                        old(self).spec_step() as int,
                    )
                    &&& forall|k: int|
                        0 <= k < out.1@.len() ==> (#[trigger] out.1@[k]).temperature == old(
                            self,
                        ).spec_current() - k * old(self).spec_step() && out.1@[k].temperature > old(
                            self,
                        ).spec_min()
                    &&& out.0@ == final(self).spec_itinerary()@
                    &&& out.0.spec_total() == final(self).spec_itinerary().spec_total()
                    &&& out.0.wf()
                    &&& out.0@.len() == old(self).spec_num_cities()
                    &&& out.1@.len() >= 1 ==> out.1@[out.1@.len() - 1].cost == out.0.spec_total()
                    &&& final(self).spec_current() as int == floor_at_zero(
                        old(self).spec_current() - out.1@.len() * old(self).spec_step(),
                    )
                },
                Err(e) => e == ConfigurationError::ZeroSampleSize && *final(self) == *old(self),
            },
    {
        if sample_size == 0 {
            return Err(ConfigurationError::ZeroSampleSize);
        }
        let ghost sched0 = *self;
        let ghost start0 = self.current_temperature as int;
        let ghost minv = self.min_temperature as int;
        let ghost stepv = self.temperature_step as int;
        let mut records: Vec<LevelRecord> = Vec::new();
        while self.current_temperature > self.min_temperature
            invariant
                self.wf(),
                sample_size >= 1,
                self.spec_step() == sched0.spec_step(),
                self.spec_start() == sched0.spec_start(),
                self.spec_min() == sched0.spec_min(),
                self.spec_num_cities() == sched0.spec_num_cities(),
                self.spec_itinerary()@.to_multiset() == sched0.spec_itinerary()@.to_multiset(),
                start0 == sched0.spec_current() as int,
                minv == sched0.spec_min() as int,
                stepv == sched0.spec_step() as int,
                self.spec_current() as int == floor_at_zero(
                    start0 - records@.len() * stepv,
                ),
                forall|k: int|
                    0 <= k < records@.len() ==> (#[trigger] records@[k]).temperature == start0 - k
                        * stepv && records@[k].temperature > minv,
                records@.len() >= 1 ==> start0 - (records@.len() - 1) * stepv > minv,
                records@.len() >= 1 ==> records@[records@.len() - 1].cost
                    == self.spec_itinerary().spec_total(),
            decreases self.spec_current(),
        {
            let ghost k = records@.len() as int;
            let mut values = sample(&*self, sample_size, rng);
            let last_pair = values.pop();
            match last_pair {
                Some(pair) => {
                    self.itinerary = pair.0;
                },
                None => {
                    proof {
                        assert(false);
                    }
                },
            }
            records.push(
                LevelRecord {
                    temperature: self.current_temperature,
                    cost: self.itinerary.total_cost(),
                },
            );
            let next = if self.current_temperature > self.temperature_step {
                self.current_temperature - self.temperature_step
            } else {
                0
            };
            self.current_temperature = next;
            proof {
                assert((k + 1) * stepv == k * stepv + stepv) by (nonlinear_arith);
            }
        }
        proof {
            let n = records@.len() as int;
            if n == 0 {
                assert(outer_iterations(start0, minv, stepv) == 0);
            } else {
                lemma_iteration_count(start0, minv, stepv, n);
            }
        }
        let it = self.itinerary.duplicate();
        Ok((it, records))
    }

    /// The Boltzmann acceptance rule at the schedule's current temperature.
    /// A proposal at least as cheap as the current tour is accepted for every
    /// draw: strictly cheaper short-circuits the draw, equal cost means the
    /// acceptance threshold is `exp(0) == 1`, above every draw. A strictly
    /// worsening proposal is accepted exactly when the source's Boltzmann draw
    /// says so. With no current tour, the proposal seeds the chain and is
    /// accepted unconditionally.
    pub fn accept_decision<R: RandomSource>(
        &self,
        current: Option<&Itinerary>,
        proposed: &Itinerary,
        rng: &mut R,
    ) -> (r: bool)
        requires
            self.chain_ready(),
            current matches Some(c) ==> c.wf(),
            proposed.wf(),
        ensures
            current is None ==> r,
            current matches Some(c) && spec_tour_cost(proposed@) < spec_tour_cost(c@) ==> r,
            current matches Some(c) && spec_tour_cost(proposed@) == spec_tour_cost(c@) ==> r,
            current is None ==> *final(rng) == *old(rng),
            (current matches Some(c) && spec_tour_cost(proposed@) < spec_tour_cost(c@))
                ==> *final(rng) == *old(rng),
    {
        match current {
            None => true,
            Some(cur) => {
                let new_cost = proposed.total_cost();
                let old_cost = cur.total_cost();
                if new_cost < old_cost {
                    true
                } else {
                    rng.boltzmann_accepts(new_cost - old_cost, self.current_temperature)
                }
            },
        }
    }
}

impl<R: RandomSource> Simulatable<Itinerary, R> for Schedule {
    type Weight = BoltzmannWeight;

    open spec fn ready(&self) -> bool {
        self.chain_ready()
    }

    open spec fn valid(&self, v: Itinerary) -> bool {
        self.candidate_ok(v)
    }

    open spec fn spec_pdf(&self, v: Itinerary) -> BoltzmannWeight {
        BoltzmannWeight { cost: v.spec_total(), temperature: self.spec_current() }
    }

    /// The weight `exp(-cost / temperature)`, by its determining pair.
    fn pdf(&self, v: &Itinerary) -> (r: BoltzmannWeight) {
        BoltzmannWeight { cost: v.total_cost(), temperature: self.current_temperature }
    }

    /// A snapshot of the working tour as the chain's seed, or a 2-opt
    /// perturbation of the current candidate.
    fn generate(&self, current: Option<&Itinerary>, rng: &mut R) -> (r: Itinerary)
        ensures
            current is None ==> r@ == self.spec_itinerary()@ && r.spec_total()
                == self.spec_itinerary().spec_total() && *final(rng) == *old(rng),
            current matches Some(c) ==> exists|lo: int, hi: int|
                is_segment_reversal(c@, r@, lo, hi),
    {
        match current {
            None => self.itinerary.duplicate(),
            Some(cur) => cur.generate_new(rng),
        }
    }

    fn accept(&self, current: Option<&Itinerary>, proposed: &Itinerary, rng: &mut R) -> (r:
        bool) {
        self.accept_decision(current, proposed, rng)
    }

    fn duplicate(&self, v: &Itinerary) -> (r: Itinerary) {
        v.duplicate()
    }
}

} // verus!
