//! A discrete-time stochastic renewal-equation simulator of epidemic spread.
//!
//! The engine derives each day's new infections from past infections through
//! a generation-interval convolution, samples transmission for finite
//! (susceptible-depleting) and infinite populations, and distributes each
//! day's infections over future symptom-onset days by residual-mass
//! splitting. Probabilities and rates are exact fixed-point rationals, so the
//! whole run is a deterministic function of the configuration, stated by the
//! contracts of this crate; only the pseudorandom draws are trusted calls
//! into `rand` and `rand_distr`.

pub mod model;
pub mod output;
pub mod parameters;
pub mod renewal;
pub mod sampler;

pub use model::SimulationError;
pub use output::RenewalOutput;
pub use parameters::{ParameterError, Parameters, Population, MAX_POPULATION, MAX_R0, SCALE};
pub use renewal::RenewalModel;
