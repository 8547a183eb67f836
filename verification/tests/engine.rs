use renewal::{Parameters, Population, RenewalModel, SCALE};

fn build(
    population: Population,
    r0: u64,
    generation_interval_pmf: Vec<u64>,
    symptom_onset_pmf: Vec<u64>,
    initial_infections: Vec<u64>,
    sim_length: usize,
    seed: u64,
) -> Parameters {
    Parameters::new(
        population,
        r0,
        generation_interval_pmf,
        symptom_onset_pmf,
        initial_infections,
        sim_length,
        seed,
    )
    .expect("parameters should be accepted")
}

#[test]
fn test_final_size() {
    let population = 100_000;
    let parameters = build(
        Population::Finite(population),
        2 * SCALE,
        vec![0, 0, SCALE / 4, SCALE / 2, SCALE / 4],
        vec![SCALE],
        vec![1],
        200,
        8675308,
    );
    let output = RenewalModel::simulate(&parameters).unwrap();
    let cum_infected: u64 = output.infection_incidence.iter().sum();
    let fraction_infected = cum_infected as f64 / population as f64;
    // Final size for r0 = 2 is ~0.796811
    assert!(f64::abs(fraction_infected - 0.796811) < 0.1);
}

#[test]
fn test_generation_interval() {
    let n_samples = 10_000;
    let initial_infections = 100;
    let generation_interval_pmf = vec![0, 0, SCALE / 4, SCALE / 2, SCALE / 4];

    let mut cumulative_output = vec![0u64; generation_interval_pmf.len() + 1];
    let mut total = 0u64;
    for seed in 0..n_samples {
        let parameters = build(
            Population::Infinite,
            SCALE,
            generation_interval_pmf.clone(),
            vec![SCALE],
            vec![initial_infections],
            generation_interval_pmf.len() + 1,
            seed,
        );
        let output = RenewalModel::simulate(&parameters).unwrap();
        for (i, entry) in cumulative_output.iter_mut().enumerate() {
            let incidence = output.infection_incidence[i];
            *entry += incidence;
            if i > 0 {
                // Accumulate secondary infections
                total += incidence;
            }
        }
    }
    for (step, mass) in generation_interval_pmf.iter().enumerate() {
        let fraction = cumulative_output[step + 1] as f64 / total as f64;
        assert!(f64::abs(fraction - (*mass as f64 / SCALE as f64)) < 1e-3);
    }
}

#[test]
fn test_symptom_onset() {
    let initial_infections = 1_000_000;
    let symptom_onset_pmf = vec![0, 0, SCALE / 4, SCALE / 2, SCALE / 4];
    let parameters = build(
        Population::Infinite,
        0,
        vec![SCALE],
        symptom_onset_pmf.clone(),
        vec![initial_infections],
        symptom_onset_pmf.len() + 1,
        8675309,
    );
    let output = RenewalModel::simulate(&parameters).unwrap();
    let total: u64 = output.symptomatic_incidence.iter().skip(1).sum();
    for (step, mass) in symptom_onset_pmf.iter().enumerate() {
        let fraction = output.symptomatic_incidence[step + 1] as f64 / total as f64;
        assert!(f64::abs(fraction - (*mass as f64 / SCALE as f64)) < 1e-3);
    }
}

#[test]
fn test_determinism() {
    let make = || {
        build(
            Population::Finite(10_000),
            3 * SCALE / 2,
            vec![SCALE / 5, 2 * SCALE / 5, 2 * SCALE / 5],
            vec![SCALE / 2, SCALE / 2],
            vec![5, 5],
            60,
            424242,
        )
    };
    let a = RenewalModel::simulate(&make()).unwrap();
    let b = RenewalModel::simulate(&make()).unwrap();
    assert_eq!(a.infection_incidence, b.infection_incidence);
    assert_eq!(a.symptomatic_incidence, b.symptomatic_incidence);
}

#[test]
fn test_different_seeds_diverge() {
    let make = |seed: u64| {
        build(
            Population::Infinite,
            SCALE,
            vec![SCALE],
            vec![SCALE],
            vec![100],
            5,
            seed,
        )
    };
    let a = RenewalModel::simulate(&make(1)).unwrap();
    let b = RenewalModel::simulate(&make(2)).unwrap();
    assert_ne!(a.infection_incidence, b.infection_incidence);
}

#[test]
fn test_susceptible_exhaustion() {
    // With an overwhelming transmission rate, the whole population is
    // infected on the day after seeding, and every later day is zero.
    let parameters = build(
        Population::Finite(50),
        20 * SCALE,
        vec![SCALE],
        vec![SCALE],
        vec![10],
        30,
        7,
    );
    let output = RenewalModel::simulate(&parameters).unwrap();
    assert_eq!(output.infection_incidence[0], 10);
    assert_eq!(output.infection_incidence[1], 40);
    let cum: u64 = output.infection_incidence.iter().sum();
    assert_eq!(cum, 50);
    for step in 2..30 {
        assert_eq!(output.infection_incidence[step], 0);
    }
}

#[test]
fn test_seed_period_override() {
    // Seeded days report exactly their seeded counts, whatever r0 and the
    // mass functions say.
    let parameters = build(
        Population::Finite(1_000_000),
        9 * SCALE,
        vec![SCALE / 2, SCALE / 2],
        vec![SCALE],
        vec![5, 7, 9],
        10,
        99,
    );
    let output = RenewalModel::simulate(&parameters).unwrap();
    assert_eq!(output.infection_incidence[0], 5);
    assert_eq!(output.infection_incidence[1], 7);
    assert_eq!(output.infection_incidence[2], 9);
}

#[test]
fn test_seeds_beyond_horizon_are_ignored() {
    let parameters = build(
        Population::Finite(5),
        2 * SCALE,
        vec![SCALE],
        vec![SCALE],
        vec![3, 4, 5],
        1,
        0,
    );
    let output = RenewalModel::simulate(&parameters).unwrap();
    assert_eq!(output.infection_incidence, vec![3]);
    assert_eq!(output.symptomatic_incidence, vec![0]);
}

#[test]
fn test_onsets_never_exceed_infections() {
    // Half the cohort's onset mass lies beyond the horizon; what is
    // distributed never exceeds the cohort size.
    let parameters = build(
        Population::Infinite,
        0,
        vec![SCALE],
        vec![SCALE / 2],
        vec![1000],
        3,
        2024,
    );
    let output = RenewalModel::simulate(&parameters).unwrap();
    let onsets: u64 = output.symptomatic_incidence.iter().sum();
    assert!(onsets <= 1000);
    assert!(output.symptomatic_incidence[1] > 0);
    assert_eq!(output.symptomatic_incidence[0], 0);
    assert_eq!(output.symptomatic_incidence[2], 0);
}

#[test]
fn test_onset_truncation_at_horizon() {
    // A one-day run leaves no room for any onset day: the whole mass is
    // dropped at the edge of the horizon.
    let parameters = build(
        Population::Infinite,
        0,
        vec![SCALE],
        vec![SCALE],
        vec![500],
        1,
        5,
    );
    let output = RenewalModel::simulate(&parameters).unwrap();
    assert_eq!(output.infection_incidence, vec![500]);
    assert_eq!(output.symptomatic_incidence, vec![0]);
}

#[test]
fn test_zero_rate_gives_zero_infections() {
    // r0 = 0 means no secondary transmission at all, in both population
    // kinds.
    for population in [Population::Infinite, Population::Finite(1000)] {
        let parameters = build(population, 0, vec![SCALE], vec![SCALE], vec![10], 6, 3);
        let output = RenewalModel::simulate(&parameters).unwrap();
        assert_eq!(output.infection_incidence[0], 10);
        for step in 1..6 {
            assert_eq!(output.infection_incidence[step], 0);
        }
    }
}

#[test]
fn test_point_mass_onsets_shift() {
    // With the whole onset mass on the next day, the onset series is the
    // infection series shifted by one: the draw with success probability one
    // is deterministic, and the last day's infections fall beyond the
    // horizon.
    let parameters = build(
        Population::Finite(10_000),
        2 * SCALE,
        vec![0, 0, SCALE / 4, SCALE / 2, SCALE / 4],
        vec![SCALE],
        vec![3],
        50,
        8675310,
    );
    let output = RenewalModel::simulate(&parameters).unwrap();
    assert_eq!(output.symptomatic_incidence[0], 0);
    for t in 1..50 {
        assert_eq!(output.symptomatic_incidence[t], output.infection_incidence[t - 1]);
    }
}
