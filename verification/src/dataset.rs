//! The dataset of a run: one record per state, which carries the time, the
//! spin angle, the spin rate, and whether the state belongs to the section.

use vstd::prelude::*;
use crate::binary64::Binary64;
use crate::hyperion::{Hyperion, HyperionStates};
use crate::sampler::{abscissae, cycle_peaks, indices, sample};

verus! {

/// The dataset of `history` for the section `sampled`: record `i` copies
/// `t`, `theta` and `omega` of state `i`, and is flagged when `i` is in the
/// section.
pub open spec fn dataset(history: Seq<Hyperion>, sampled: Seq<int>) -> Seq<
    (Binary64, Binary64, Binary64, bool),
> {
    Seq::new(
        history.len(),
        |i: int| (history[i].t, history[i].theta, history[i].omega, sampled.contains(i)),
    )
}

/// The dataset has one record per state, and the flags say exactly which
/// indices are in the section.
pub proof fn lemma_dataset_mirrors_history(history: Seq<Hyperion>, sampled: Seq<int>, i: int)
    requires
        0 <= i < history.len(),
    ensures
        dataset(history, sampled).len() == history.len(),
        dataset(history, sampled)[i].0 == history[i].t,
        dataset(history, sampled)[i].1 == history[i].theta,
        dataset(history, sampled)[i].2 == history[i].omega,
        dataset(history, sampled)[i].3 <==> sampled.contains(i),
{
}

/// True when `index` is one of `sampled`.
pub fn is_sampled(sampled: &Vec<usize>, index: usize) -> (found: bool)
    ensures
        found == indices(sampled@).contains(index as int),
{
    let mut k: usize = 0;
    while k < sampled.len()
        invariant
            k <= sampled.len(),
            forall|l: int| 0 <= l < k ==> sampled@[l] != index,
        decreases sampled.len() - k,
    {
        if sampled[k] == index {
            assert(indices(sampled@)[k as int] == index as int);
            return true;
        }
        k += 1;
    }
    false
}

/// Builds the dataset of a history for a given section.
pub fn build(trajectory: &HyperionStates, sampled: &Vec<usize>) -> (records: Vec<
    (Binary64, Binary64, Binary64, bool),
>)
    ensures
        records@ == dataset(trajectory@, indices(sampled@)),
{
    let count: usize = trajectory.states.len();
    let mut records: Vec<(Binary64, Binary64, Binary64, bool)> = Vec::new();
    let mut i: usize = 0;
    while i < count
        invariant
            i <= count,
            count == trajectory.states.len(),
            records@.len() == i,
            forall|j: int| 0 <= j < i ==> records@[j] == dataset(trajectory@, indices(sampled@))[j],
        decreases count - i,
    {
        let state: Hyperion = trajectory.states[i];
        let flag: bool = is_sampled(sampled, i);
        records.push((state.t, state.theta, state.omega, flag));
        i += 1;
    }
    assert(records@ =~= dataset(trajectory@, indices(sampled@)));
    records
}

/// Analyses a finished run: takes its section and builds its dataset.
pub fn export(trajectory: &HyperionStates) -> (records: Vec<(Binary64, Binary64, Binary64, bool)>)
    ensures
        records@ == dataset(trajectory@, cycle_peaks(abscissae(trajectory@))),
{
    let peaks: Vec<usize> = sample(trajectory);
    build(trajectory, &peaks)
}

} // verus!
