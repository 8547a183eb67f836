use vstd::prelude::*;

verus! {

/// Scale of the fixed-point probabilities and rates used throughout the
/// library: a stored value `v` stands for the real number `v / SCALE`.
pub const SCALE: u64 = 1_000_000;

/// Largest accepted scaled basic reproduction number (a real value of 1000):
/// a machine limit that keeps every intermediate product of the engine inside
/// `u128`.
pub const MAX_R0: u64 = 1_000_000_000;

/// Largest accepted finite population size: a machine limit that keeps every
/// intermediate product of the engine inside `u128`.
pub const MAX_POPULATION: u64 = 10_000_000_000;

/// Whether the simulated population is finite (with susceptible depletion)
/// or unbounded.
#[derive(Clone, Copy, Debug, PartialEq, Eq, Structural)]
pub enum Population {
    Finite(u64),
    Infinite,
}

/// Why a configuration was rejected.
#[derive(Clone, Copy, Debug, PartialEq, Eq, Structural)]
pub enum ParameterError {
    ZeroSimLength,
    R0TooLarge,
    GenerationMassTooLarge,
    SymptomMassTooLarge,
    PopulationTooLarge,
    InitialInfectionsExceedPopulation,
}

/// Immutable configuration of one simulation run. Probabilities and rates are
/// fixed-point values over `SCALE`: `generation_interval_pmf[lag]` is the
/// scaled probability mass for transmission `lag + 1` days after infection,
/// `symptom_onset_pmf[k]` the scaled mass for symptom onset `k + 1` days
/// after infection, and `r0` the scaled basic reproduction number.
#[derive(Clone, Debug)]
pub struct Parameters {
    pub population: Population,
    pub r0: u64,
    pub generation_interval_pmf: Vec<u64>,
    pub symptom_onset_pmf: Vec<u64>,
    pub initial_infections: Vec<u64>,
    pub sim_length: usize,
    pub seed: u64,
}

/// Sum of the first `k` entries of `s` (all of `s` when `k == s.len()`).
pub open spec fn prefix_sum(s: Seq<u64>, k: int) -> int
    decreases k,
{
    if k <= 0 {
        0
    } else {
        prefix_sum(s, k - 1) + s[k - 1]
    }
}

/// The number of leading entries of `initial_infections` that the run reads:
/// entries at or beyond `sim_length` are ignored.
pub open spec fn seeded_len(initial: Seq<u64>, sim_length: int) -> int {
    if initial.len() <= sim_length {
        initial.len() as int
    } else {
        sim_length
    }
}

/// Prefix sums of a sequence of naturals grow with the prefix.
pub proof fn lemma_prefix_sum_monotone(s: Seq<u64>, j: int, k: int)
    requires
        0 <= j <= k,
    ensures
        prefix_sum(s, j) <= prefix_sum(s, k),
    decreases k,
{
    if j < k {
        lemma_prefix_sum_monotone(s, j, k - 1);
    }
}

/// A prefix sum of unsigned entries is never negative.
pub proof fn lemma_prefix_sum_nonneg(s: Seq<u64>, k: int)
    ensures
        0 <= prefix_sum(s, k),
    decreases k,
{
    if k > 0 {
        lemma_prefix_sum_nonneg(s, k - 1);
    }
}

/// Sequences that agree on a prefix have the same prefix sum over it.
pub proof fn lemma_prefix_sum_congruent(s: Seq<u64>, t: Seq<u64>, k: int)
    requires
        forall|i: int| 0 <= i < k ==> s[i] == t[i],
    ensures
        prefix_sum(s, k) == prefix_sum(t, k),
    decreases k,
{
    if k > 0 {
        lemma_prefix_sum_congruent(s, t, k - 1);
    }
}

/// Zero entries between `j` and `k` add nothing to the prefix sum.
pub proof fn lemma_prefix_sum_zero_suffix(s: Seq<u64>, j: int, k: int)
    requires
        0 <= j <= k,
        forall|i: int| j <= i < k ==> s[i] == 0,
    ensures
        prefix_sum(s, k) == prefix_sum(s, j),
    decreases k,
{
    if j < k {
        lemma_prefix_sum_zero_suffix(s, j, k - 1);
    }
}

impl Parameters {
    /// The invariant that `new` establishes: a positive horizon, the machine
    /// caps on `r0` and the population size, probability mass functions whose
    /// total mass is at most one, and seeded infections that fit into a
    /// finite population.
    pub open spec fn valid(self) -> bool {
        &&& self.sim_length >= 1
        &&& self.r0 <= MAX_R0
        &&& prefix_sum(
            self.generation_interval_pmf@,
            self.generation_interval_pmf@.len() as int,
        ) <= SCALE
        &&& prefix_sum(self.symptom_onset_pmf@, self.symptom_onset_pmf@.len() as int) <= SCALE
        &&& match self.population {
            Population::Finite(n) => n <= MAX_POPULATION && prefix_sum(
                self.initial_infections@,
                seeded_len(self.initial_infections@, self.sim_length as int),
            ) <= n,
            Population::Infinite => true,
        }
    }

    /// The checks that `new` performs, in the order it performs them.
    pub open spec fn check(
        population: Population,
        r0: u64,
        generation_interval_pmf: Seq<u64>,
        symptom_onset_pmf: Seq<u64>,
        initial_infections: Seq<u64>,
        sim_length: usize,
    ) -> Result<(), ParameterError> {
        if sim_length < 1 {
            Err(ParameterError::ZeroSimLength)
        } else if r0 > MAX_R0 {
            Err(ParameterError::R0TooLarge)
        } else if prefix_sum(generation_interval_pmf, generation_interval_pmf.len() as int)
            > SCALE {
            Err(ParameterError::GenerationMassTooLarge)
        } else if prefix_sum(symptom_onset_pmf, symptom_onset_pmf.len() as int) > SCALE {
            Err(ParameterError::SymptomMassTooLarge)
        } else {
            match population {
                Population::Finite(n) => {
                    if n > MAX_POPULATION {
                        Err(ParameterError::PopulationTooLarge)
                    } else if prefix_sum(
                        initial_infections,
                        seeded_len(initial_infections, sim_length as int),
                    ) > n {
                        Err(ParameterError::InitialInfectionsExceedPopulation)
                    } else {
                        Ok(())
                    }
                },
                Population::Infinite => Ok(()),
            }
        }
    }

    /// Validated constructor: accepts a configuration exactly when `check`
    /// does, and then returns it unchanged, with its invariant established.
    pub fn new(
        population: Population,
        r0: u64,
        generation_interval_pmf: Vec<u64>,
        symptom_onset_pmf: Vec<u64>,
        initial_infections: Vec<u64>,
        sim_length: usize,
        seed: u64,
    ) -> (r: Result<Parameters, ParameterError>)
        ensures
            match r {
                Ok(p) => {
                    &&& Self::check(
                        population,
                        r0,
                        generation_interval_pmf@,
                        symptom_onset_pmf@,
                        initial_infections@,
                        sim_length,
                    ) == Result::<(), ParameterError>::Ok(())
                    &&& p == (Parameters {
                        population,
                        r0,
                        generation_interval_pmf,
                        symptom_onset_pmf,
                        initial_infections,
                        sim_length,
                        seed,
                    })
                    &&& p.valid()
                },
                Err(e) => Self::check(
                    population,
                    r0,
                    generation_interval_pmf@,
                    symptom_onset_pmf@,
                    initial_infections@,
                    sim_length,
                ) == Result::<(), ParameterError>::Err(e),
            },
    {
        if sim_length < 1 {
            return Err(ParameterError::ZeroSimLength);
        }
        if r0 > MAX_R0 {
            return Err(ParameterError::R0TooLarge);
        }
        if !mass_within_scale(&generation_interval_pmf, generation_interval_pmf.len()) {
            return Err(ParameterError::GenerationMassTooLarge);
        }
        if !mass_within_scale(&symptom_onset_pmf, symptom_onset_pmf.len()) {
            return Err(ParameterError::SymptomMassTooLarge);
        }
        match population {
            Population::Finite(n) => {
                if n > MAX_POPULATION {
                    return Err(ParameterError::PopulationTooLarge);
                }
                let read: usize = if initial_infections.len() <= sim_length {
                    initial_infections.len()
                } else {
                    sim_length
                };
                if !sum_at_most(&initial_infections, read, n) {
                    return Err(ParameterError::InitialInfectionsExceedPopulation);
                }
            },
            Population::Infinite => {},
        }
        Ok(
            Parameters {
                population,
                r0,
                generation_interval_pmf,
                symptom_onset_pmf,
                initial_infections,
                sim_length,
                seed,
            },
        )
    }
}

/// Whether the first `k` entries of `s` sum to at most `SCALE`.
fn mass_within_scale(s: &Vec<u64>, k: usize) -> (r: bool)
    requires
        k <= s@.len(),
    ensures
        r <==> prefix_sum(s@, k as int) <= SCALE,
{
    sum_at_most(s, k, SCALE)
}

/// Whether the first `k` entries of `s` sum to at most `bound`.
fn sum_at_most(s: &Vec<u64>, k: usize, bound: u64) -> (r: bool)
    requires
        k <= s@.len(),
    ensures
        r <==> prefix_sum(s@, k as int) <= bound,
{
    let mut acc: u128 = 0;
    let mut i: usize = 0;
    while i < k
        invariant
            0 <= i <= k <= s@.len(),
            acc == prefix_sum(s@, i as int),
            acc <= bound,
        decreases k - i,
    {
        let next: u128 = acc + (s[i] as u128);
        if next > (bound as u128) {
            proof {
                lemma_prefix_sum_monotone(s@, i + 1, k as int);
            }
            return false;
        }
        acc = next;
        i = i + 1;
    }
    true
}

} // verus!

