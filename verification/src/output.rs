use vstd::prelude::*;

verus! {

/// The two per-day time series that one simulation run produces:
/// `infection_incidence[day]` new infections and `symptomatic_incidence[day]`
/// new symptom onsets, both of length `sim_length`.
#[derive(Clone, Debug)]
pub struct RenewalOutput {
    pub infection_incidence: Vec<u64>,
    pub symptomatic_incidence: Vec<u64>,
}

impl RenewalOutput {
    /// Both series of length `len`, all entries zero.
    pub fn new(len: usize) -> (r: RenewalOutput)
        ensures
            r.infection_incidence@ == Seq::<u64>::new(len as nat, |i: int| 0u64),
            r.symptomatic_incidence@ == Seq::<u64>::new(len as nat, |i: int| 0u64),
    {
        let mut infection_incidence: Vec<u64> = Vec::new();
        let mut symptomatic_incidence: Vec<u64> = Vec::new();
        let mut i: usize = 0;
        while i < len
            invariant
                0 <= i <= len,
                infection_incidence@ == Seq::<u64>::new(i as nat, |j: int| 0u64),
                symptomatic_incidence@ == Seq::<u64>::new(i as nat, |j: int| 0u64),
            decreases len - i,
        {
            infection_incidence.push(0);
            symptomatic_incidence.push(0);
            proof {
                assert(infection_incidence@ =~= Seq::<u64>::new((i + 1) as nat, |j: int| 0u64));
                assert(symptomatic_incidence@ =~= Seq::<u64>::new((i + 1) as nat, |j: int| 0u64));
            }
            i = i + 1;
        }
        RenewalOutput { infection_incidence, symptomatic_incidence }
    }
}

impl Default for RenewalOutput {
    /// Two empty series.
    fn default() -> (r: RenewalOutput)
        ensures
            r.infection_incidence@ == Seq::<u64>::empty(),
            r.symptomatic_incidence@ == Seq::<u64>::empty(),
    {
        RenewalOutput { infection_incidence: Vec::new(), symptomatic_incidence: Vec::new() }
    }
}

} // verus!
