use vstd::prelude::*;

use crate::parameters::{prefix_sum, Parameters, Population, MAX_R0, SCALE};
use crate::sampler::{
    binomial_draw, binomial_record, poisson_draw, poisson_record, MAX_DRAW_TRIALS,
    MAX_POISSON_MEAN,
};

verus! {

/// Why a run stopped: each variant names an invalid sampling parameter or an
/// out-of-range count that the engine refuses to carry on from.
#[derive(Clone, Copy, Debug, PartialEq, Eq, Structural)]
pub enum SimulationError {
    /// A Poisson transmission mean above `MAX_POISSON_MEAN`.
    RateTooLarge,
    /// A day's infection count above `MAX_DRAW_TRIALS`, too many trials for
    /// the binomial onset draws.
    InfectionsTooLarge,
    /// An onset probability mass with no residual mass left to draw from.
    InvalidOnsetProbability,
    /// A pseudorandom draw above its own trial count.
    DrawOutOfRange,
    /// A day's symptom-onset count that would not fit in a 64-bit counter.
    OnsetOverflow,
}

/// The whole state of a run after some number of completed days: the two
/// incidence series, the per-day reproduction-number numerators, the
/// cumulative infection count (tracked for finite populations), the
/// sampler's draw history, and whether the run has failed. Once `failed` is
/// set the state is frozen.
pub struct RunState {
    pub infections: Seq<u64>,
    pub onsets: Seq<u64>,
    pub rt: Seq<u128>,
    pub cum_infected: u64,
    pub history: Seq<int>,
    pub failed: Option<SimulationError>,
}

/// The state of one day's symptom-onset splitting after some number of
/// probability-mass entries have been handled.
pub struct SplitState {
    pub onsets: Seq<u64>,
    pub cum_onsets: u64,
    pub history: Seq<int>,
    pub failed: Option<SimulationError>,
}

/// Denominator unit that the per-day reproduction numbers carry beyond
/// `SCALE`: the population size for a finite population (whose depletion
/// factor is `(n - cum) / n`), one otherwise.
pub open spec fn population_unit(p: Population) -> int {
    match p {
        Population::Finite(n) => n as int,
        Population::Infinite => 1,
    }
}

/// How many lags of the generation-interval convolution day `step` reads:
/// every strictly earlier day, up to the length of the mass function.
pub open spec fn lag_count(step: int, pmf_len: int) -> int {
    if step <= pmf_len {
        step
    } else {
        pmf_len
    }
}

/// Scaled effective infectiousness at day `step` restricted to the first
/// `lags` lags: the sum over `lag < lags` of
/// `infections[step - lag - 1] * pmf[lag]`.
pub open spec fn infectiousness_upto(inf: Seq<u64>, pmf: Seq<u64>, step: int, lags: int) -> int
    decreases lags,
{
    if lags <= 0 {
        0
    } else {
        infectiousness_upto(inf, pmf, step, lags - 1) + inf[step - lags] * pmf[lags - 1]
    }
}

/// Scaled effective infectiousness at day `step`: the generation-interval
/// convolution over all strictly earlier days that the mass function covers.
pub open spec fn infectiousness(inf: Seq<u64>, pmf: Seq<u64>, step: int) -> int {
    infectiousness_upto(inf, pmf, step, lag_count(step, pmf.len() as int))
}

/// How many symptom-onset mass entries day `step` distributes to: the mass
/// function is walked until it ends or the target day would leave the
/// output.
pub open spec fn split_count(pmf_len: int, step: int, out_len: int) -> int {
    if pmf_len <= out_len - step - 1 {
        pmf_len
    } else if out_len - step - 1 >= 0 {
        out_len - step - 1
    } else {
        0
    }
}

/// One entry of the residual-mass splitting of day `step`'s `infections`:
/// entry `i` of the mass function sends a binomial draw among the
/// not-yet-assigned infections to day `step + 1 + i`, with success
/// probability `pmf[i]` renormalized against the mass not yet spent. A draw
/// with probability zero is the constant `0` and one with probability one
/// takes every remaining infection: the sampler fixes both deterministically.
pub open spec fn split_step(
    pmf: Seq<u64>,
    infections: u64,
    step: int,
    st: SplitState,
    i: int,
) -> SplitState {
    if st.failed is Some {
        st
    } else {
        let mass = pmf[i] as int;
        let residual = SCALE - prefix_sum(pmf, i);
        if residual <= 0 || mass > residual {
            SplitState {
                onsets: st.onsets,
                cum_onsets: st.cum_onsets,
                history: st.history,
                failed: Some(SimulationError::InvalidOnsetProbability),
            }
        } else {
            let trials = infections - st.cum_onsets;
            if trials > MAX_DRAW_TRIALS {
                SplitState {
                    onsets: st.onsets,
                    cum_onsets: st.cum_onsets,
                    history: st.history,
                    failed: Some(SimulationError::InfectionsTooLarge),
                }
            } else {
                let draw = if mass == 0 {
                    0u64
                } else if mass == residual {
                    trials as u64
                } else {
                    binomial_draw(st.history, trials as u64, mass as u128, residual as u128)
                };
                let history = st.history + binomial_record(trials as u64, mass as u128, residual as u128);
                if draw > trials {
                    SplitState {
                        onsets: st.onsets,
                        cum_onsets: st.cum_onsets,
                        history,
                        failed: Some(SimulationError::DrawOutOfRange),
                    }
                } else {
                    let target = step + 1 + i;
                    if st.onsets[target] + draw > u64::MAX {
                        SplitState {
                            onsets: st.onsets,
                            cum_onsets: st.cum_onsets,
                            history,
                            failed: Some(SimulationError::OnsetOverflow),
                        }
                    } else {
                        SplitState {
                            onsets: st.onsets.update(target, (st.onsets[target] + draw) as u64),
                            cum_onsets: (st.cum_onsets + draw) as u64,
                            history,
                            failed: None,
                        }
                    }
                }
            }
        }
    }
}

/// The splitting state after the first `i` entries of day `step`'s
/// residual-mass walk.
pub open spec fn split_after(
    pmf: Seq<u64>,
    infections: u64,
    step: int,
    st0: SplitState,
    i: int,
) -> SplitState
    decreases i,
{
    if i <= 0 {
        st0
    } else {
        split_step(pmf, infections, step, split_after(pmf, infections, step, st0, i - 1), i - 1)
    }
}

/// Day `step`'s new infections and the draw history afterwards: the seeded
/// count during the seed period, otherwise a stochastic draw against the
/// scaled transmission rate `rt[step] * infectiousness`, binomial among the
/// remaining susceptibles of a finite population and Poisson for an infinite
/// one. A binomial draw with probability zero is the constant `0` and one
/// with probability one infects every remaining susceptible, as the sampler
/// fixes deterministically.
pub open spec fn day_infections(p: Parameters, st: RunState, step: int) -> (
    u64,
    Seq<int>,
    Option<SimulationError>,
) {
    if step < p.initial_infections@.len() {
        (p.initial_infections@[step], st.history, None)
    } else {
        let inf_num = infectiousness(st.infections, p.generation_interval_pmf@, step);
        let rate_num = st.rt[step] * inf_num;
        match p.population {
            Population::Finite(n) => {
                let sus = n - st.cum_infected;
                if sus <= 0 {
                    (0u64, st.history, None)
                } else {
                    let den = SCALE * n * SCALE * sus;
                    let pnum = if rate_num <= den {
                        rate_num
                    } else {
                        den
                    };
                    let draw = if pnum == 0 {
                        0u64
                    } else if pnum == den {
                        sus as u64
                    } else {
                        binomial_draw(st.history, sus as u64, pnum as u128, den as u128)
                    };
                    let history = st.history + binomial_record(
                        sus as u64,
                        pnum as u128,
                        den as u128,
                    );
                    if draw > sus {
                        (0u64, history, Some(SimulationError::DrawOutOfRange))
                    } else {
                        (draw, history, None)
                    }
                }
            },
            Population::Infinite => {
                if rate_num <= 0 {
                    (0u64, st.history, None)
                } else if rate_num > SCALE * SCALE * MAX_POISSON_MEAN {
                    (0u64, st.history, Some(SimulationError::RateTooLarge))
                } else {
                    let den = SCALE * SCALE;
                    (
                        poisson_draw(st.history, rate_num as u128, den as u128),
                        st.history + poisson_record(rate_num as u128, den as u128),
                        None,
                    )
                }
            },
        }
    }
}

/// One whole simulated day on top of state `st`: determine day `step`'s
/// infections, record them, deplete the next day's reproduction number for a
/// finite population, and split the infections over future symptom-onset
/// days. A failed state is left frozen.
pub open spec fn day_step(p: Parameters, st: RunState, step: int) -> RunState {
    if st.failed is Some {
        st
    } else {
        let (inf, hist1, err) = day_infections(p, st, step);
        if err is Some {
            RunState {
                infections: st.infections,
                onsets: st.onsets,
                rt: st.rt,
                cum_infected: st.cum_infected,
                history: hist1,
                failed: err,
            }
        } else {
            let infections = st.infections.update(step, inf);
            let cum = match p.population {
                Population::Finite(n) => (st.cum_infected + inf) as u64,
                Population::Infinite => st.cum_infected,
            };
            let rt = match p.population {
                Population::Finite(n) => if step < p.sim_length - 1 {
                    st.rt.update(step + 1, (p.r0 * (n - cum)) as u128)
                } else {
                    st.rt
                },
                Population::Infinite => st.rt,
            };
            if inf > 0 {
                let s0 = SplitState {
                    onsets: st.onsets,
                    cum_onsets: 0,
                    history: hist1,
                    failed: None,
                };
                let s1 = split_after(
                    p.symptom_onset_pmf@,
                    inf,
                    step,
                    s0,
                    split_count(p.symptom_onset_pmf@.len() as int, step, p.sim_length as int),
                );
                RunState {
                    infections,
                    onsets: s1.onsets,
                    rt,
                    cum_infected: cum,
                    history: s1.history,
                    failed: s1.failed,
                }
            } else {
                RunState {
                    infections,
                    onsets: st.onsets,
                    rt,
                    cum_infected: cum,
                    history: hist1,
                    failed: None,
                }
            }
        }
    }
}

/// The state before any day has run: all-zero series, every day's
/// reproduction number at `r0`, and a fresh sampler history holding the
/// seed.
pub open spec fn init_state(p: Parameters) -> RunState {
    RunState {
        infections: Seq::new(p.sim_length as nat, |i: int| 0u64),
        onsets: Seq::new(p.sim_length as nat, |i: int| 0u64),
        rt: Seq::new(p.sim_length as nat, |i: int| (p.r0 * population_unit(p.population)) as u128),
        cum_infected: 0,
        history: seq![p.seed as int],
        failed: None,
    }
}

/// The state after the first `k` days of the run.
pub open spec fn run_after(p: Parameters, k: int) -> RunState
    decreases k,
{
    if k <= 0 {
        init_state(p)
    } else {
        day_step(p, run_after(p, k - 1), k - 1)
    }
}

/// The state at the end of the run: the whole simulation as a function of
/// its configuration. `RenewalModel::simulate` returns exactly this state's
/// series (or its failure), which is the determinism of the engine: two runs
/// with equal parameters, seed included, agree entry for entry.
pub open spec fn sim_model(p: Parameters) -> RunState {
    run_after(p, p.sim_length as int)
}

/// A failed splitting state stays as it is for the rest of the walk.
pub proof fn lemma_split_frozen(
    pmf: Seq<u64>,
    infections: u64,
    step: int,
    st0: SplitState,
    j: int,
    m: int,
)
    requires
        0 <= j <= m,
        split_after(pmf, infections, step, st0, j).failed is Some,
    ensures
        split_after(pmf, infections, step, st0, m) == split_after(pmf, infections, step, st0, j),
    decreases m,
{
    if j < m {
        lemma_split_frozen(pmf, infections, step, st0, j, m - 1);
    }
}

/// Residual-mass splitting keeps the length of the onset series as long as
/// every target day lies inside it.
pub proof fn lemma_split_len(pmf: Seq<u64>, infections: u64, step: int, st0: SplitState, m: int)
    requires
        0 <= step,
        step + 1 + m <= st0.onsets.len(),
    ensures
        split_after(pmf, infections, step, st0, m).onsets.len() == st0.onsets.len(),
    decreases m,
{
    if m > 0 {
        lemma_split_len(pmf, infections, step, st0, m - 1);
    }
}

/// A failed run state stays as it is for the rest of the run.
pub proof fn lemma_run_frozen(p: Parameters, j: int, k: int)
    requires
        0 <= j <= k,
        run_after(p, j).failed is Some,
    ensures
        run_after(p, k) == run_after(p, j),
    decreases k,
{
    if j < k {
        lemma_run_frozen(p, j, k - 1);
    }
}

/// The convolution is non-negative, and bounded by any bound on the
/// incidence entries times the mass spent on the lags it reads.
pub proof fn lemma_infectiousness_bound(
    inf: Seq<u64>,
    pmf: Seq<u64>,
    step: int,
    lags: int,
    bound: int,
)
    requires
        0 <= lags <= step <= inf.len(),
        lags <= pmf.len(),
        forall|i: int| 0 <= i < inf.len() ==> inf[i] <= bound,
    ensures
        0 <= infectiousness_upto(inf, pmf, step, lags),
        infectiousness_upto(inf, pmf, step, lags) <= bound * prefix_sum(pmf, lags),
    decreases lags,
{
    crate::parameters::lemma_prefix_sum_nonneg(pmf, lags);
    if lags > 0 {
        lemma_infectiousness_bound(inf, pmf, step, lags - 1, bound);
        let t = inf[step - lags] * pmf[lags - 1];
        assert(0 <= t && t <= bound * pmf[lags - 1]) by (nonlinear_arith)
            requires
                0 <= inf[step - lags] <= bound,
                0 <= pmf[lags - 1],
                t == inf[step - lags] * pmf[lags - 1],
        ;
        assert(bound * prefix_sum(pmf, lags - 1) + bound * pmf[lags - 1] == bound * prefix_sum(
            pmf,
            lags,
        )) by (nonlinear_arith)
            requires
                prefix_sum(pmf, lags) == prefix_sum(pmf, lags - 1) + pmf[lags - 1],
        ;
    }
}

/// What holds of every reachable run state after `k` days: the series keep
/// their lengths, the reproduction numbers stay below the cap, days not yet
/// run hold zero, an unfailed run reproduces the seeded counts, and for a
/// finite population the cumulative count equals the sum of the recorded
/// days and never exceeds the population.
pub open spec fn run_inv(p: Parameters, k: int, st: RunState) -> bool {
    &&& st.infections.len() == p.sim_length
    &&& st.onsets.len() == p.sim_length
    &&& st.rt.len() == p.sim_length
    &&& forall|i: int|
        0 <= i < st.rt.len() ==> st.rt[i] <= MAX_R0 * population_unit(p.population)
    &&& forall|i: int| k <= i < st.infections.len() ==> st.infections[i] == 0
    &&& (st.failed is None ==> forall|i: int|
        0 <= i < k && i < p.initial_infections@.len() ==> st.infections[i]
            == p.initial_infections@[i])
    &&& match p.population {
        Population::Finite(n) => {
            &&& st.cum_infected <= n
            &&& st.cum_infected == prefix_sum(st.infections, k)
            &&& forall|i: int| 0 <= i < st.infections.len() ==> st.infections[i] <= n
        },
        Population::Infinite => st.cum_infected == 0,
    }
}

/// Every reachable run state satisfies `run_inv`.
pub proof fn lemma_run_state(p: Parameters, k: int)
    requires
        p.valid(),
        0 <= k <= p.sim_length,
    ensures
        run_inv(p, k, run_after(p, k)),
    decreases k,
{
    if k == 0 {
        let st = init_state(p);
        assert(forall|i: int|
            0 <= i < st.rt.len() ==> st.rt[i] <= MAX_R0 * population_unit(p.population)) by {
            assert(p.r0 * population_unit(p.population) <= MAX_R0 * population_unit(p.population))
                by (nonlinear_arith)
                requires
                    p.r0 <= MAX_R0,
                    0 <= population_unit(p.population),
            ;
        }
    } else {
        lemma_run_state(p, k - 1);
        let s = k - 1;
        let st = run_after(p, s);
        let st2 = run_after(p, k);
        if st.failed is Some {
            assert(st2 == st);
            crate::parameters::lemma_prefix_sum_zero_suffix(st.infections, s, k);
        } else {
            let (inf, hist1, err) = day_infections(p, st, s);
            if err is Some {
                crate::parameters::lemma_prefix_sum_zero_suffix(st.infections, s, k);
            } else {
                lemma_day_value_bounds(p, st, s);
                let infections = st.infections.update(s, inf);
                crate::parameters::lemma_prefix_sum_congruent(infections, st.infections, s);
                match p.population {
                    Population::Finite(n) => {
                        assert(prefix_sum(infections, k) == prefix_sum(infections, s)
                            + infections[s]);
                        if s < p.initial_infections@.len() {
                            let initial = p.initial_infections@;
                            let sl = crate::parameters::seeded_len(initial, p.sim_length as int);
                            crate::parameters::lemma_prefix_sum_congruent(st.infections, initial, s);
                            crate::parameters::lemma_prefix_sum_monotone(initial, s + 1, sl);
                        }
                        if s < p.sim_length - 1 {
                            let cum = (st.cum_infected + inf) as u64;
                            assert(p.r0 * (n - cum) <= MAX_R0 * population_unit(p.population))
                                by (nonlinear_arith)
                                requires
                                    p.r0 <= MAX_R0,
                                    0 <= n - cum <= population_unit(p.population),
                            ;
                        }
                    },
                    Population::Infinite => {},
                }
                if inf > 0 {
                    let s0 = SplitState {
                        onsets: st.onsets,
                        cum_onsets: 0,
                        history: hist1,
                        failed: None,
                    };
                    lemma_split_len(
                        p.symptom_onset_pmf@,
                        inf,
                        s,
                        s0,
                        split_count(p.symptom_onset_pmf@.len() as int, s, p.sim_length as int),
                    );
                }
            }
        }
    }
}

/// Susceptible-exhaustion law, for a finite population of size `n`: the
/// whole run infects at most `n` individuals, and once the cumulative
/// infection count reaches `n` after some day `j`, every later day reports
/// zero new infections.
pub proof fn lemma_susceptible_exhaustion(p: Parameters, n: u64, j: int)
    requires
        p.valid(),
        p.population == Population::Finite(n),
        0 <= j <= p.sim_length,
    ensures
        prefix_sum(sim_model(p).infections, p.sim_length as int) <= n,
        prefix_sum(sim_model(p).infections, j) == n ==> forall|i: int|
            j <= i < p.sim_length ==> sim_model(p).infections[i] == 0,
{
    lemma_run_state(p, p.sim_length as int);
    let s = sim_model(p).infections;
    let l = p.sim_length as int;
    if prefix_sum(s, j) == n {
        assert forall|i: int| j <= i < l implies s[i] == 0 by {
            crate::parameters::lemma_prefix_sum_monotone(s, j, i);
            assert(prefix_sum(s, i + 1) == prefix_sum(s, i) + s[i]);
            crate::parameters::lemma_prefix_sum_monotone(s, i + 1, l);
        }
    }
}

/// Seed-period override law: in a run that completes, every day of the seed
/// period reports exactly its seeded infection count, whatever `r0` and the
/// mass functions are.
pub proof fn lemma_seed_period_override(p: Parameters)
    requires
        p.valid(),
        sim_model(p).failed is None,
    ensures
        forall|i: int|
            0 <= i < p.sim_length && i < p.initial_infections@.len()
                ==> sim_model(p).infections[i] == p.initial_infections@[i],
{
    lemma_run_state(p, p.sim_length as int);
}

/// Point-mass onset law: when the whole onset mass lies on the very next
/// day, a run that completes reports each day's infections as the next
/// day's symptom onsets, exactly; day zero receives none, and the last
/// day's infections fall beyond the horizon.
pub proof fn lemma_point_mass_onsets(p: Parameters)
    requires
        p.valid(),
        p.symptom_onset_pmf@ == seq![SCALE],
        sim_model(p).failed is None,
    ensures
        sim_model(p).onsets[0] == 0,
        forall|t: int|
            1 <= t < p.sim_length ==> sim_model(p).onsets[t] == sim_model(p).infections[t - 1],
{
    lemma_point_mass_onsets_upto(p, p.sim_length as int);
}

/// Induction behind `lemma_point_mass_onsets`: after `k` unfailed days,
/// every day written so far carries the previous day's infections and every
/// other day still holds zero.
proof fn lemma_point_mass_onsets_upto(p: Parameters, k: int)
    requires
        p.valid(),
        p.symptom_onset_pmf@ == seq![SCALE],
        0 <= k <= p.sim_length,
        run_after(p, k).failed is None,
    ensures
        forall|t: int|
            0 <= t < p.sim_length && (t == 0 || t > k) ==> run_after(p, k).onsets[t] == 0,
        forall|t: int|
            1 <= t <= k && t < p.sim_length ==> run_after(p, k).onsets[t] == run_after(
                p,
                k,
            ).infections[t - 1],
    decreases k,
{
    if k > 0 {
        let s = k - 1;
        let st = run_after(p, s);
        let st2 = run_after(p, k);
        if st.failed is Some {
            lemma_run_frozen(p, s, k);
            assert(false);
        }
        lemma_point_mass_onsets_upto(p, s);
        lemma_run_state(p, s);
        let (inf, hist1, err) = day_infections(p, st, s);
        if err is Some {
            assert(false);
        }
        assert(prefix_sum(p.symptom_onset_pmf@, 0) == 0);
        if inf > 0 {
            let m = split_count(p.symptom_onset_pmf@.len() as int, s, p.sim_length as int);
            let s0 = SplitState { onsets: st.onsets, cum_onsets: 0, history: hist1, failed: None };
            if s < p.sim_length - 1 {
                assert(m == 1);
                assert(split_after(p.symptom_onset_pmf@, inf, s, s0, 0) == s0);
                assert(split_after(p.symptom_onset_pmf@, inf, s, s0, 1) == split_step(
                    p.symptom_onset_pmf@,
                    inf,
                    s,
                    s0,
                    0,
                ));
                assert(st.onsets[k] == 0);
            } else {
                assert(m == 0);
            }
        }
    }
}

/// Zero-rate law: with a basic reproduction number of zero there is no
/// secondary transmission at all, in either population kind: every day past
/// the seed period reports zero infections.
pub proof fn lemma_zero_rate_no_transmission(p: Parameters)
    requires
        p.valid(),
        p.r0 == 0,
    ensures
        forall|s: int|
            p.initial_infections@.len() <= s < p.sim_length ==> sim_model(p).infections[s] == 0,
{
    lemma_zero_rate_upto(p, p.sim_length as int);
}

/// Induction behind `lemma_zero_rate_no_transmission`: with `r0 == 0` every
/// per-day reproduction number stays zero, so every transmission draw has
/// success probability zero and yields zero.
proof fn lemma_zero_rate_upto(p: Parameters, k: int)
    requires
        p.valid(),
        p.r0 == 0,
        0 <= k <= p.sim_length,
    ensures
        forall|i: int| 0 <= i < run_after(p, k).rt.len() ==> run_after(p, k).rt[i] == 0,
        forall|s: int|
            p.initial_infections@.len() <= s < k ==> run_after(p, k).infections[s] == 0,
    decreases k,
{
    if k == 0 {
        assert(forall|i: int|
            0 <= i < init_state(p).rt.len() ==> init_state(p).rt[i] == 0) by {
            assert(p.r0 * population_unit(p.population) == 0) by (nonlinear_arith)
                requires
                    p.r0 == 0,
            ;
        }
    } else {
        lemma_zero_rate_upto(p, k - 1);
        lemma_run_state(p, k - 1);
        let s = k - 1;
        let st = run_after(p, s);
        if st.failed is None {
            if s >= p.initial_infections@.len() {
                let inf_num = infectiousness(st.infections, p.generation_interval_pmf@, s);
                assert(st.rt[s] * inf_num == 0) by (nonlinear_arith)
                    requires
                        st.rt[s] == 0,
                ;
                match p.population {
                    Population::Finite(n) => {
                        let sus = n - st.cum_infected;
                        if sus > 0 {
                            assert(0 <= SCALE * n * SCALE * sus) by (nonlinear_arith)
                                requires
                                    0 <= n,
                                    0 <= sus,
                                    0 <= SCALE,
                            ;
                        }
                    },
                    Population::Infinite => {},
                }
            }
            let (inf, hist1, err) = day_infections(p, st, s);
            if err is None {
                match p.population {
                    Population::Finite(n) => {
                        if s < p.sim_length - 1 {
                            let cum = (st.cum_infected + inf) as u64;
                            assert(p.r0 * (n - cum) == 0) by (nonlinear_arith)
                                requires
                                    p.r0 == 0,
                            ;
                        }
                    },
                    Population::Infinite => {},
                }
            }
        }
    }
}

/// For an unfailed day that produced `inf` infections, `inf` respects the
/// seeding and the remaining susceptibles.
pub proof fn lemma_day_value_bounds(p: Parameters, st: RunState, s: int)
    requires
        p.valid(),
        0 <= s < p.sim_length,
        run_inv(p, s, st),
        st.failed is None,
        day_infections(p, st, s).2 is None,
    ensures
        match p.population {
            Population::Finite(n) => {
                &&& day_infections(p, st, s).0 <= n - st.cum_infected
                &&& (s < p.initial_infections@.len() ==> st.cum_infected + day_infections(
                    p,
                    st,
                    s,
                ).0 <= n)
            },
            Population::Infinite => true,
        },
{
    let inf = day_infections(p, st, s).0;
    match p.population {
        Population::Finite(n) => {
            if s < p.initial_infections@.len() {
                let initial = p.initial_infections@;
                let sl = crate::parameters::seeded_len(initial, p.sim_length as int);
                crate::parameters::lemma_prefix_sum_congruent(st.infections, initial, s);
                assert(prefix_sum(initial, s + 1) == prefix_sum(initial, s) + initial[s]);
                crate::parameters::lemma_prefix_sum_monotone(initial, s + 1, sl);
                assert(st.cum_infected + inf <= n);
            }
        },
        Population::Infinite => {},
    }
}

} // verus!
