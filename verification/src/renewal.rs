use vstd::prelude::*;

use crate::model::{
    day_infections, infectiousness, init_state, lag_count, lemma_infectiousness_bound,
    lemma_run_frozen, lemma_run_state, population_unit, run_after, sim_model,
    split_after, split_count, SimulationError, SplitState,
};
use crate::output::RenewalOutput;
use crate::parameters::{
    lemma_prefix_sum_monotone, lemma_prefix_sum_nonneg, prefix_sum, Parameters, Population,
    MAX_POPULATION, MAX_R0, SCALE,
};
use crate::sampler::{Sampler, MAX_DRAW_TRIALS, MAX_POISSON_MEAN};

verus! {

/// The simulation engine.
pub struct RenewalModel {}

/// Scaled effective infectiousness at day `step`: the causal convolution of
/// the recorded incidence with the generation-interval mass function.
fn effective_infectiousness(inc: &Vec<u64>, pmf: &Vec<u64>, step: usize) -> (r: u128)
    requires
        step <= inc@.len(),
        prefix_sum(pmf@, pmf@.len() as int) <= SCALE,
    ensures
        r == infectiousness(inc@, pmf@, step as int),
        r <= (u64::MAX as int) * (SCALE as int),
{
    let count: usize = if step <= pmf.len() {
        step
    } else {
        pmf.len()
    };
    let mut acc: u128 = 0;
    let mut lag: usize = 0;
    proof {
        lemma_infectiousness_bound(inc@, pmf@, step as int, count as int, u64::MAX as int);
    }
    while lag < count
        invariant
            0 <= lag <= count,
            count == lag_count(step as int, pmf@.len() as int),
            count <= step <= inc@.len(),
            count <= pmf@.len(),
            prefix_sum(pmf@, pmf@.len() as int) <= SCALE,
            acc == crate::model::infectiousness_upto(inc@, pmf@, step as int, lag as int),
            acc <= (u64::MAX as int) * prefix_sum(pmf@, lag as int),
        decreases count - lag,
    {
        proof {
            lemma_prefix_sum_nonneg(pmf@, lag as int);
            lemma_prefix_sum_monotone(pmf@, lag as int + 1, pmf@.len() as int);
            assert(prefix_sum(pmf@, lag as int + 1) == prefix_sum(pmf@, lag as int) + pmf@[
                lag as int
            ]);
            assert((inc@[step - lag - 1] as int) * (pmf@[lag as int] as int) <= u128::MAX as int)
                by (nonlinear_arith)
                requires
                    0 <= inc@[step - lag - 1] <= u64::MAX as int,
                    0 <= pmf@[lag as int] <= u64::MAX as int,
            ;
        }
        let term: u128 = (inc[step - lag - 1] as u128) * (pmf[lag] as u128);
        proof {
            assert(term <= (u64::MAX as int) * pmf@[lag as int] && acc + term <= (u64::MAX as int)
                * prefix_sum(pmf@, lag as int + 1)) by (nonlinear_arith)
                requires
                    term == inc@[step - lag - 1] * pmf@[lag as int],
                    0 <= inc@[step - lag - 1] <= u64::MAX as int,
                    0 <= pmf@[lag as int],
                    acc <= (u64::MAX as int) * prefix_sum(pmf@, lag as int),
                    prefix_sum(pmf@, lag as int + 1) == prefix_sum(pmf@, lag as int) + pmf@[
                        lag as int
                    ],
            ;
            assert((u64::MAX as int) * prefix_sum(pmf@, lag as int + 1) <= (u64::MAX as int) * (
            SCALE as int)) by (nonlinear_arith)
                requires
                    prefix_sum(pmf@, lag as int + 1) <= SCALE as int,
            ;
        }
        acc = acc + term;
        lag = lag + 1;
    }
    proof {
        lemma_prefix_sum_monotone(pmf@, count as int, pmf@.len() as int);
        lemma_prefix_sum_nonneg(pmf@, count as int);
        assert((u64::MAX as int) * prefix_sum(pmf@, count as int) <= (u64::MAX as int) * (
        SCALE as int)) by (nonlinear_arith)
            requires
                prefix_sum(pmf@, count as int) <= SCALE as int,
        ;
    }
    acc
}

/// Distribute one day's `infections` over future symptom-onset days by
/// residual-mass splitting, exactly as `split_after` describes.
fn distribute_onsets(
    sampler: &mut Sampler,
    pmf: &Vec<u64>,
    infections: u64,
    step: usize,
    out: &mut Vec<u64>,
) -> (r: Result<(), SimulationError>)
    requires
        prefix_sum(pmf@, pmf@.len() as int) <= SCALE,
        step < old(out)@.len(),
    ensures
        ({
            let m = split_count(pmf@.len() as int, step as int, old(out)@.len() as int);
            let s1 = split_after(
                pmf@,
                infections,
                step as int,
                (SplitState {
                    onsets: old(out)@,
                    cum_onsets: 0,
                    history: old(sampler)@,
                    failed: None,
                }),
                m,
            );
            match r {
                Ok(()) => {
                    &&& s1.failed is None
                    &&& final(out)@ == s1.onsets
                    &&& final(sampler)@ == s1.history
                    &&& final(out)@.len() == old(out)@.len()
                },
                Err(e) => s1.failed == Some(e),
            }
        }),
{
    let ghost s0 = SplitState {
        onsets: old(out)@,
        cum_onsets: 0,
        history: old(sampler)@,
        failed: None,
    };
    let len: usize = out.len();
    let m: usize = if pmf.len() <= len - step - 1 {
        pmf.len()
    } else {
        len - step - 1
    };
    let mut spent: u64 = 0;
    let mut cum: u64 = 0;
    let mut i: usize = 0;
    while i < m
        invariant
            0 <= i <= m,
            m == split_count(pmf@.len() as int, step as int, old(out)@.len() as int),
            m <= pmf@.len(),
            step as int + 1 + m as int <= old(out)@.len(),
            out@.len() == old(out)@.len(),
            len == old(out)@.len(),
            prefix_sum(pmf@, pmf@.len() as int) <= SCALE,
            spent == prefix_sum(pmf@, i as int),
            spent <= SCALE,
            cum <= infections,
            s0 == (SplitState {
                onsets: old(out)@,
                cum_onsets: 0u64,
                history: old(sampler)@,
                failed: None::<SimulationError>,
            }),
            ({
                let si = split_after(pmf@, infections, step as int, s0, i as int);
                &&& si.failed is None
                &&& si.onsets == out@
                &&& si.cum_onsets == cum
                &&& si.history == sampler@
            }),
        decreases m - i,
    {
        proof {
            lemma_prefix_sum_nonneg(pmf@, i as int);
            lemma_prefix_sum_monotone(pmf@, i as int + 1, pmf@.len() as int);
            assert(prefix_sum(pmf@, i as int + 1) == prefix_sum(pmf@, i as int) + pmf@[i as int]);
        }
        let mass: u64 = pmf[i];
        let residual: u64 = SCALE - spent;
        if residual == 0 {
            proof {
                crate::model::lemma_split_frozen(
                    pmf@,
                    infections,
                    step as int,
                    s0,
                    i as int + 1,
                    m as int,
                );
            }
            return Err(SimulationError::InvalidOnsetProbability);
        }
        let trials: u64 = infections - cum;
        if trials > MAX_DRAW_TRIALS {
            proof {
                crate::model::lemma_split_frozen(
                    pmf@,
                    infections,
                    step as int,
                    s0,
                    i as int + 1,
                    m as int,
                );
            }
            return Err(SimulationError::InfectionsTooLarge);
        }
        let draw: u64 = sampler.draw_binomial(trials, mass as u128, residual as u128);
        if draw > trials {
            proof {
                crate::model::lemma_split_frozen(
                    pmf@,
                    infections,
                    step as int,
                    s0,
                    i as int + 1,
                    m as int,
                );
            }
            return Err(SimulationError::DrawOutOfRange);
        }
        let target: usize = step + 1 + i;
        let prev: u64 = out[target];
        if draw > u64::MAX - prev {
            proof {
                crate::model::lemma_split_frozen(
                    pmf@,
                    infections,
                    step as int,
                    s0,
                    i as int + 1,
                    m as int,
                );
            }
            return Err(SimulationError::OnsetOverflow);
        }
        out[target] = prev + draw;
        cum = cum + draw;
        spent = spent + mass;
        i = i + 1;
    }
    Ok(())
}

/// One renewal-equation transmission draw for day `step` (a day past the
/// seed period): exactly the infection count and history step that
/// `day_infections` describes.
fn transmission_draw(
    p: &Parameters,
    out_inf: &Vec<u64>,
    rt: &Vec<u128>,
    cum: u64,
    sampler: &mut Sampler,
    step: usize,
) -> (r: Result<u64, SimulationError>)
    requires
        p.valid(),
        p.initial_infections@.len() <= step as int,
        step < p.sim_length,
        run_after(*p, step as int).failed is None,
        run_after(*p, step as int).infections == out_inf@,
        run_after(*p, step as int).rt == rt@,
        run_after(*p, step as int).cum_infected == cum,
        run_after(*p, step as int).history == old(sampler)@,
    ensures
        ({
            let st = run_after(*p, step as int);
            match r {
                Ok(inf) => day_infections(*p, st, step as int) == (
                    inf,
                    final(sampler)@,
                    None::<SimulationError>,
                ),
                Err(e) => day_infections(*p, st, step as int) == (
                    0u64,
                    final(sampler)@,
                    Some(e),
                ),
            }
        }),
{
    proof {
        lemma_run_state(*p, step as int);
    }
    let inf_num: u128 = effective_infectiousness(out_inf, &p.generation_interval_pmf, step);
    let rt_i: u128 = rt[step];
    match p.population {
        Population::Finite(n) => {
            let sus: u64 = n - cum;
            if sus == 0 {
                Ok(0)
            } else {
                proof {
                    lemma_infectiousness_bound(
                        out_inf@,
                        p.generation_interval_pmf@,
                        step as int,
                        lag_count(step as int, p.generation_interval_pmf@.len() as int),
                        n as int,
                    );
                    lemma_prefix_sum_monotone(
                        p.generation_interval_pmf@,
                        lag_count(step as int, p.generation_interval_pmf@.len() as int),
                        p.generation_interval_pmf@.len() as int,
                    );
                    lemma_prefix_sum_nonneg(
                        p.generation_interval_pmf@,
                        lag_count(step as int, p.generation_interval_pmf@.len() as int),
                    );
                    assert(inf_num <= (n as int) * (SCALE as int)) by (nonlinear_arith)
                        requires
                            inf_num <= (n as int) * prefix_sum(
                                p.generation_interval_pmf@,
                                lag_count(step as int, p.generation_interval_pmf@.len() as int),
                            ),
                            prefix_sum(
                                p.generation_interval_pmf@,
                                lag_count(step as int, p.generation_interval_pmf@.len() as int),
                            ) <= SCALE as int,
                            0 <= n,
                    ;
                    assert(rt_i * inf_num <= (MAX_R0 as int) * (MAX_POPULATION as int) * (
                    MAX_POPULATION as int) * (SCALE as int)) by (nonlinear_arith)
                        requires
                            0 <= rt_i <= (MAX_R0 as int) * (n as int),
                            0 <= inf_num <= (n as int) * (SCALE as int),
                            0 < n <= MAX_POPULATION,
                    ;
                    assert((SCALE as int) * (n as int) * (SCALE as int) * (sus as int) <= (
                    SCALE as int) * (MAX_POPULATION as int) * (SCALE as int) * (
                    MAX_POPULATION as int) && 1 <= (SCALE as int) * (n as int) * (SCALE as int)
                        * (sus as int)) by (nonlinear_arith)
                        requires
                            0 < sus <= n <= MAX_POPULATION,
                            1000 < SCALE,
                    ;
                }
                let den: u128 = (SCALE as u128) * (n as u128) * (SCALE as u128) * (sus as u128);
                let rate_num: u128 = rt_i * inf_num;
                let pnum: u128 = if rate_num <= den {
                    rate_num
                } else {
                    den
                };
                let draw: u64 = sampler.draw_binomial(sus, pnum, den);
                if draw > sus {
                    Err(SimulationError::DrawOutOfRange)
                } else {
                    Ok(draw)
                }
            }
        },
        Population::Infinite => {
            proof {
                assert(rt_i * inf_num <= (MAX_R0 as int) * ((u64::MAX as int) * (SCALE as int)))
                    by (nonlinear_arith)
                    requires
                        0 <= rt_i <= MAX_R0 as int,
                        0 <= inf_num <= (u64::MAX as int) * (SCALE as int),
                ;
            }
            let rate_num: u128 = rt_i * inf_num;
            if rate_num == 0 {
                Ok(0)
            } else {
                let den: u128 = (SCALE as u128) * (SCALE as u128);
                let cap: u128 = den * (MAX_POISSON_MEAN as u128);
                if rate_num > cap {
                    Err(SimulationError::RateTooLarge)
                } else {
                    Ok(sampler.draw_poisson(rate_num, den))
                }
            }
        },
    }
}

impl RenewalModel {
    /// Run the whole simulation described by `parameters`.
    ///
    /// The run is deterministic: the result equals the mathematical model
    /// `sim_model(*parameters)` entry for entry, so two calls with equal
    /// parameters, seed included, return equal output. An `Err` reports the
    /// invalid sampling parameter or out-of-range count that stopped the
    /// run, exactly when the model fails the same way.
    pub fn simulate(parameters: &Parameters) -> (r: Result<RenewalOutput, SimulationError>)
        requires
            parameters.valid(),
        ensures
            ({
                let end = sim_model(*parameters);
                match r {
                    Ok(out) => {
                        &&& end.failed is None
                        &&& out.infection_incidence@ == end.infections
                        &&& out.symptomatic_incidence@ == end.onsets
                        &&& out.infection_incidence@.len() == parameters.sim_length
                        &&& out.symptomatic_incidence@.len() == parameters.sim_length
                    },
                    Err(e) => end.failed == Some(e),
                }
            }),
    {
        let len: usize = parameters.sim_length;
        let mut output = RenewalOutput::new(len);
        let mut rt: Vec<u128> = initial_rt(parameters);
        let mut cum: u64 = 0;
        let mut sampler = Sampler::new(parameters.seed);
        let mut step: usize = 0;
        proof {
            assert(output.infection_incidence@ =~= init_state(*parameters).infections);
            assert(output.symptomatic_incidence@ =~= init_state(*parameters).onsets);
            assert(sampler@ =~= init_state(*parameters).history);
        }
        while step < len
            invariant
                0 <= step <= len,
                len == parameters.sim_length,
                parameters.valid(),
                ({
                    let st = run_after(*parameters, step as int);
                    &&& st.failed is None
                    &&& st.infections == output.infection_incidence@
                    &&& st.onsets == output.symptomatic_incidence@
                    &&& st.rt == rt@
                    &&& st.cum_infected == cum
                    &&& st.history == sampler@
                }),
            decreases len - step,
        {
            let ghost st = run_after(*parameters, step as int);
            proof {
                lemma_run_state(*parameters, step as int);
            }
            let infections: u64;
            if step < parameters.initial_infections.len() {
                infections = parameters.initial_infections[step];
            } else {
                match transmission_draw(
                    parameters,
                    &output.infection_incidence,
                    &rt,
                    cum,
                    &mut sampler,
                    step,
                ) {
                    Ok(inf) => {
                        infections = inf;
                    },
                    Err(e) => {
                        proof {
                            assert(run_after(*parameters, step as int + 1).failed == Some(e));
                            lemma_run_frozen(
                                *parameters,
                                step as int + 1,
                                parameters.sim_length as int,
                            );
                        }
                        return Err(e);
                    },
                }
            }
            proof {
                assert(day_infections(*parameters, st, step as int) == (
                    infections,
                    sampler@,
                    None::<SimulationError>,
                ));
                crate::model::lemma_day_value_bounds(*parameters, st, step as int);
            }
            output.infection_incidence[step] = infections;
            match parameters.population {
                Population::Finite(_n) => {
                    cum = cum + infections;
                },
                Population::Infinite => {},
            }
            match parameters.population {
                Population::Finite(n) => {
                    if step < len - 1 {
                        proof {
                            assert((parameters.r0 as int) * ((n - cum) as int) <= (MAX_R0 as int)
                                * (MAX_POPULATION as int)) by (nonlinear_arith)
                                requires
                                    0 <= parameters.r0 <= MAX_R0 as int,
                                    0 <= (n - cum) as int <= n as int,
                                    n <= MAX_POPULATION,
                            ;
                        }
                        rt[step + 1] = (parameters.r0 as u128) * ((n - cum) as u128);
                    }
                },
                Population::Infinite => {},
            }
            if infections > 0 {
                match distribute_onsets(
                    &mut sampler,
                    &parameters.symptom_onset_pmf,
                    infections,
                    step,
                    &mut output.symptomatic_incidence,
                ) {
                    Ok(()) => {},
                    Err(e) => {
                        proof {
                            assert(run_after(*parameters, step as int + 1).failed == Some(e));
                            lemma_run_frozen(
                                *parameters,
                                step as int + 1,
                                parameters.sim_length as int,
                            );
                        }
                        return Err(e);
                    },
                }
            }
            step = step + 1;
        }
        proof {
            lemma_run_state(*parameters, len as int);
        }
        Ok(output)
    }
}

/// The per-day reproduction-number numerators before any depletion: every
/// day starts at the scaled `r0` (over the unit of its population kind).
fn initial_rt(p: &Parameters) -> (r: Vec<u128>)
    requires
        p.valid(),
    ensures
        r@ == init_state(*p).rt,
{
    let unit: u64 = match p.population {
        Population::Finite(n) => n,
        Population::Infinite => 1,
    };
    proof {
        assert((p.r0 as int) * (unit as int) <= u128::MAX as int) by (nonlinear_arith)
            requires
                0 <= p.r0 <= u64::MAX as int,
                0 <= unit <= u64::MAX as int,
        ;
    }
    let val: u128 = (p.r0 as u128) * (unit as u128);
    let mut r: Vec<u128> = Vec::new();
    let mut i: usize = 0;
    while i < p.sim_length
        invariant
            0 <= i <= p.sim_length,
            val == (p.r0 * population_unit(p.population)) as u128,
            r@ == Seq::new(i as nat, |j: int| val),
        decreases p.sim_length - i,
    {
        r.push(val);
        proof {
            assert(r@ =~= Seq::new((i + 1) as nat, |j: int| val));
        }
        i = i + 1;
    }
    proof {
        assert(r@ =~= init_state(*p).rt);
    }
    r
}

} // verus!


