use renewal::{
    ParameterError, Parameters, Population, RenewalModel, RenewalOutput, SimulationError,
    MAX_POPULATION, MAX_R0, SCALE,
};

#[test]
fn test_output_new_zeroed() {
    let out = RenewalOutput::new(4);
    assert_eq!(out.infection_incidence, vec![0, 0, 0, 0]);
    assert_eq!(out.symptomatic_incidence, vec![0, 0, 0, 0]);
}

#[test]
fn test_output_default_empty() {
    let out = RenewalOutput::default();
    assert!(out.infection_incidence.is_empty());
    assert!(out.symptomatic_incidence.is_empty());
}

#[test]
fn test_new_accepts_and_keeps_fields() {
    let p = Parameters::new(
        Population::Finite(100),
        2 * SCALE,
        vec![SCALE / 2, SCALE / 2],
        vec![SCALE],
        vec![1],
        20,
        17,
    )
    .unwrap();
    assert_eq!(p.r0, 2 * SCALE);
    assert_eq!(p.generation_interval_pmf, vec![SCALE / 2, SCALE / 2]);
    assert_eq!(p.symptom_onset_pmf, vec![SCALE]);
    assert_eq!(p.initial_infections, vec![1]);
    assert_eq!(p.sim_length, 20);
    assert_eq!(p.seed, 17);
    assert!(matches!(p.population, Population::Finite(100)));
}

#[test]
fn test_new_rejects_zero_sim_length() {
    let r = Parameters::new(Population::Infinite, SCALE, vec![SCALE], vec![SCALE], vec![1], 0, 0);
    assert_eq!(r.unwrap_err(), ParameterError::ZeroSimLength);
}

#[test]
fn test_new_rejects_large_r0() {
    let r = Parameters::new(
        Population::Infinite,
        MAX_R0 + 1,
        vec![SCALE],
        vec![SCALE],
        vec![1],
        10,
        0,
    );
    assert_eq!(r.unwrap_err(), ParameterError::R0TooLarge);
}

#[test]
fn test_new_rejects_heavy_generation_mass() {
    let r = Parameters::new(
        Population::Infinite,
        SCALE,
        vec![600_000, 600_000],
        vec![SCALE],
        vec![1],
        10,
        0,
    );
    assert_eq!(r.unwrap_err(), ParameterError::GenerationMassTooLarge);
}

#[test]
fn test_new_rejects_heavy_symptom_mass() {
    let r = Parameters::new(
        Population::Infinite,
        SCALE,
        vec![SCALE],
        vec![SCALE + 1],
        vec![1],
        10,
        0,
    );
    assert_eq!(r.unwrap_err(), ParameterError::SymptomMassTooLarge);
}

#[test]
fn test_new_rejects_large_population() {
    let r = Parameters::new(
        Population::Finite(MAX_POPULATION + 1),
        SCALE,
        vec![SCALE],
        vec![SCALE],
        vec![1],
        10,
        0,
    );
    assert_eq!(r.unwrap_err(), ParameterError::PopulationTooLarge);
}

#[test]
fn test_new_rejects_excess_seeding() {
    let r = Parameters::new(
        Population::Finite(5),
        SCALE,
        vec![SCALE],
        vec![SCALE],
        vec![6],
        10,
        0,
    );
    assert_eq!(r.unwrap_err(), ParameterError::InitialInfectionsExceedPopulation);
}

#[test]
fn test_new_ignores_seeds_beyond_horizon_in_check() {
    // Only the seeded days the run can read count against the population.
    let r = Parameters::new(
        Population::Finite(5),
        SCALE,
        vec![SCALE],
        vec![SCALE],
        vec![2, 3, 100],
        2,
        0,
    );
    assert!(r.is_ok());
}

#[test]
fn test_simulate_rejects_spent_residual_mass() {
    // A trailing mass entry after the whole onset mass is spent makes the
    // renormalized probability 0 / 0.
    let p = Parameters::new(
        Population::Infinite,
        0,
        vec![SCALE],
        vec![SCALE, 0],
        vec![10],
        3,
        0,
    )
    .unwrap();
    let r = RenewalModel::simulate(&p);
    assert_eq!(r.unwrap_err(), SimulationError::InvalidOnsetProbability);
}

#[test]
fn test_simulate_rejects_huge_transmission_rate() {
    // An astronomic incidence drives the Poisson mean over the sampler's
    // cap.
    let p = Parameters::new(
        Population::Infinite,
        MAX_R0,
        vec![SCALE],
        vec![],
        vec![u64::MAX],
        2,
        0,
    )
    .unwrap();
    let r = RenewalModel::simulate(&p);
    assert_eq!(r.unwrap_err(), SimulationError::RateTooLarge);
}

#[test]
fn test_simulate_rejects_huge_onset_cohort() {
    // A cohort too large for a binomial draw is refused, not biased.
    let p = Parameters::new(
        Population::Infinite,
        0,
        vec![SCALE],
        vec![SCALE / 2],
        vec![u64::MAX],
        2,
        0,
    )
    .unwrap();
    let r = RenewalModel::simulate(&p);
    assert_eq!(r.unwrap_err(), SimulationError::InfectionsTooLarge);
}

#[test]
fn test_empty_generation_pmf_means_no_transmission() {
    let p = Parameters::new(
        Population::Finite(100),
        5 * SCALE,
        vec![],
        vec![SCALE],
        vec![7],
        5,
        0,
    )
    .unwrap();
    let output = RenewalModel::simulate(&p).unwrap();
    assert_eq!(output.infection_incidence, vec![7, 0, 0, 0, 0]);
}
