use vstd::prelude::*;
use num_traits::ToPrimitive;
use rand::distr::Distribution;
use rand::rngs::StdRng;
use rand::SeedableRng;
use rand_distr::{Binomial, Poisson};

verus! {

/// Largest number of trials handed to a binomial draw: keeps the sampler's
/// internal floating-point index arithmetic far from the signed 64-bit
/// range, where it would assert.
pub const MAX_DRAW_TRIALS: u64 = 1_000_000_000_000_000_000;

/// Largest mean handed to a Poisson draw: safely below the largest mean that
/// the sampler accepts (about 1.8e19), with margin for the rounding of the
/// mean to floating point.
pub const MAX_POISSON_MEAN: u64 = 1_000_000_000_000_000_000;

#[verifier::external_type_specification]
#[verifier::external_body]
pub struct ExStdRng(StdRng);

/// The value that a binomial draw with `trials` trials and success
/// probability `num / den` returns when the sampler's past is `history`.
pub uninterp spec fn binomial_draw(history: Seq<int>, trials: u64, num: u128, den: u128) -> u64;

/// The value that a Poisson draw with mean `num / den` returns when the
/// sampler's past is `history`.
pub uninterp spec fn poisson_draw(history: Seq<int>, num: u128, den: u128) -> u64;

/// The ghost record of one binomial draw, appended to the sampler's history.
pub open spec fn binomial_record(trials: u64, num: u128, den: u128) -> Seq<int> {
    seq![0int, trials as int, num as int, den as int]
}

/// The ghost record of one Poisson draw, appended to the sampler's history.
pub open spec fn poisson_record(num: u128, den: u128) -> Seq<int> {
    seq![1int, num as int, den as int]
}

/// A seeded pseudorandom source together with the ghost history of the draws
/// made from it. The history determines the generator's state: the stream is
/// a function of the seed, and each draw consumes a portion of the stream
/// determined by its parameters and the stream itself. The named draw
/// functions above are therefore functions of the history and the current
/// draw's parameters, which makes every simulation run a deterministic
/// function of its configuration.
pub(crate) struct Sampler {
    rng: StdRng,
    history: Ghost<Seq<int>>,
}

impl View for Sampler {
    type V = Seq<int>;

    closed spec fn view(&self) -> Seq<int> {
        self.history@
    }
}

/// Relies on rand's `StdRng::seed_from_u64`: a deterministic pseudorandom
/// generator whose whole stream is a function of the seed. The generator is
/// opaque; the `Sampler` holding it carries the ghost history that the draw
/// contracts speak of.
#[verifier::external_body]
fn seeded_rng(seed: u64) -> StdRng {
    StdRng::seed_from_u64(seed)
}

impl Sampler {
    /// A fresh sampler whose history holds just the seed.
    pub(crate) fn new(seed: u64) -> (r: Sampler)
        ensures
            r@ == seq![seed as int],
    {
        Sampler { rng: seeded_rng(seed), history: Ghost(Seq::empty().push(seed as int)) }
    }

    /// Relies on rand_distr's `Binomial`: `Binomial::new(trials, p)` accepts
    /// every `p` in [0, 1] (here `p = num / den` with `num <= den`, so the
    /// rounded quotient stays in [0, 1]), and sampling returns a draw that is
    /// a function of the generator stream and the parameters. The two
    /// degenerate probabilities are constants in its source: `num == 0`
    /// rounds to exactly zero and `num == den` to exactly one, and
    /// `Binomial::new` then returns a constant distribution that yields `0`
    /// or `trials` without touching the generator. The sampler approximates
    /// very small positive `p` by a Poisson draw, so otherwise the result is
    /// not certain to stay at or below `trials`; callers check it.
    #[verifier::external_body]
    pub(crate) fn draw_binomial(&mut self, trials: u64, num: u128, den: u128) -> (r: u64)
        requires
            1 <= den,
            num <= den,
            trials <= MAX_DRAW_TRIALS,
        ensures
            r == binomial_draw(old(self)@, trials, num, den),
            num == 0 ==> r == 0,
            num == den ==> r == trials,
            final(self)@ == old(self)@ + binomial_record(trials, num, den),
    {
        let p = num.to_f64().unwrap() / den.to_f64().unwrap();
        Binomial::new(trials, p).unwrap().sample(&mut self.rng)
    }

    /// Relies on rand_distr's `Poisson`: `Poisson::new(mean)` accepts every
    /// positive finite mean up to its documented maximum (here
    /// `mean = num / den` with `1 <= num <= den * MAX_POISSON_MEAN`), and
    /// sampling returns a draw that is a function of the generator stream
    /// and the mean; the draw comes back as a floating-point count and is
    /// truncated into `u64` range.
    #[verifier::external_body]
    pub(crate) fn draw_poisson(&mut self, num: u128, den: u128) -> (r: u64)
        requires
            1 <= num,
            1 <= den,
            num <= den * MAX_POISSON_MEAN,
        ensures
            r == poisson_draw(old(self)@, num, den),
            final(self)@ == old(self)@ + poisson_record(num, den),
    {
        let mean = num.to_f64().unwrap() / den.to_f64().unwrap();
        let draw = Poisson::new(mean).unwrap().sample(&mut self.rng);
        draw as u64
    }
}

} // verus!
