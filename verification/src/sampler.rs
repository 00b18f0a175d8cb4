//! The stroboscopic section of a run: for each orbital cycle that closed, the
//! index at which the moon stood farthest along the x axis.
//!
//! A cycle opens at the first reading with `x > 0` and closes at the first
//! reading after it with `x < 0`. While it is open, a reading becomes the
//! cycle's peak when its `x` exceeds that of the peak so far, so of equal
//! readings the first is kept. A cycle that is still open when the history
//! ends has no peak.

use vstd::prelude::*;
use crate::binary64::Binary64;
use crate::cycles::{is_cycle_peak, lemma_peaks_are_cycle_maxima};
use crate::hyperion::{Hyperion, HyperionStates};

verus! {

/// The x coordinates of a history, in order.
pub open spec fn abscissae(history: Seq<Hyperion>) -> Seq<Binary64> {
    Seq::new(history.len(), |i: int| history[i].x)
}

/// Indices as mathematical integers.
pub open spec fn indices(positions: Seq<usize>) -> Seq<int> {
    Seq::new(positions.len(), |k: int| positions[k] as int)
}

/// What a scan knows after some readings: the peak of the open cycle, if one
/// is open, and the peaks of the cycles that closed.
pub struct Scan {
    pub peak: Option<int>,
    pub closed: Seq<int>,
}

/// The scan after one more reading, which has index `i`.
pub open spec fn advance(xs: Seq<Binary64>, before: Scan, i: int) -> Scan {
    match before.peak {
        None => if xs[i].positive() {
            Scan { peak: Some(i), closed: before.closed }
        } else {
            before
        },
        Some(p) => if xs[i].exceeds(xs[p]) {
            Scan { peak: Some(i), closed: before.closed }
        } else if xs[i].negative() {
            Scan { peak: None, closed: before.closed.push(p) }
        } else {
            before
        },
    }
}

/// The scan after the first `n` readings.
pub open spec fn scan(xs: Seq<Binary64>, n: nat) -> Scan
    decreases n,
{
    if n == 0 {
        Scan { peak: None, closed: Seq::empty() }
    } else {
        advance(xs, scan(xs, (n - 1) as nat), n - 1)
    }
}

/// The peaks of the closed cycles of `xs`, in order.
pub open spec fn cycle_peaks(xs: Seq<Binary64>) -> Seq<int> {
    scan(xs, xs.len()).closed
}

/// What holds of a scan of the first `n` readings: every index it holds is
/// that of a positive reading among them, the closed peaks ascend, and the
/// open peak lies beyond them.
pub open spec fn scan_in_order(xs: Seq<Binary64>, n: nat, state: Scan) -> bool {
    &&& forall|k: int| 0 <= k < state.closed.len() ==> 0 <= #[trigger] state.closed[k] < n
            && xs[state.closed[k]].positive()
    &&& forall|k: int, l: int| 0 <= k < l < state.closed.len() ==> #[trigger] state.closed[k] < #[trigger] state.closed[l]
    &&& state.closed.len() <= n / 2
    &&& match state.peak {
        None => true,
        Some(p) => {
            &&& 0 <= p < n
            &&& xs[p].positive()
            &&& state.closed.len() <= (n - 1) / 2
            &&& forall|k: int| 0 <= k < state.closed.len() ==> #[trigger] state.closed[k] < p
        },
    }
}

/// The peaks of `xs` are indices of positive readings, in ascending order,
/// and each cycle takes at least two readings.
pub proof fn lemma_peaks_ascend(xs: Seq<Binary64>)
    ensures
        forall|k: int| 0 <= k < cycle_peaks(xs).len() ==> 0 <= #[trigger] cycle_peaks(xs)[k] < xs.len()
            && xs[cycle_peaks(xs)[k]].positive(),
        forall|k: int, l: int| 0 <= k < l < cycle_peaks(xs).len() ==> #[trigger] cycle_peaks(xs)[k] < #[trigger] cycle_peaks(xs)[l],
        2 * cycle_peaks(xs).len() <= xs.len(),
{
    lemma_scan_in_order(xs, xs.len());
}

/// Every scan of a prefix is in order.
pub proof fn lemma_scan_in_order(xs: Seq<Binary64>, n: nat)
    requires
        n <= xs.len(),
    ensures
        scan_in_order(xs, n, scan(xs, n)),
    decreases n,
{
    if n > 0 {
        lemma_scan_in_order(xs, (n - 1) as nat);
    }
}

/// A scan reads only the readings it has passed: two sequences that agree on
/// their first `n` readings have the same scan there.
pub proof fn lemma_scan_reads_prefix(xs: Seq<Binary64>, ys: Seq<Binary64>, n: nat)
    requires
        n <= xs.len(),
        n <= ys.len(),
        forall|i: int| 0 <= i < n ==> xs[i] == ys[i],
    ensures
        scan(xs, n) == scan(ys, n),
    decreases n,
{
    if n > 0 {
        lemma_scan_reads_prefix(xs, ys, (n - 1) as nat);
        lemma_scan_in_order(xs, (n - 1) as nat);
    }
}

/// The closed peaks only grow: what a scan has recorded after `n` readings
/// stands at the front of what it has recorded after `m >= n`.
pub proof fn lemma_scan_grows(xs: Seq<Binary64>, n: nat, m: nat)
    requires
        n <= m,
    ensures
        scan(xs, n).closed.len() <= scan(xs, m).closed.len(),
        scan(xs, m).closed.subrange(0, scan(xs, n).closed.len() as int) == scan(xs, n).closed,
    decreases m,
{
    if n < m {
        lemma_scan_grows(xs, n, (m - 1) as nat);
        let before = scan(xs, (m - 1) as nat).closed;
        let after = scan(xs, m).closed;
        let kept = scan(xs, n).closed;
        assert(after.subrange(0, kept.len() as int) =~= before.subrange(0, kept.len() as int));
    } else {
        assert(scan(xs, m).closed.subrange(0, scan(xs, n).closed.len() as int) =~= scan(xs, n).closed);
    }
}

/// The section of a history does not depend on when it is taken: the peaks
/// of the first `n` states of a run are the first peaks of the whole run.
pub proof fn lemma_peaks_of_partial_run(xs: Seq<Binary64>, n: nat)
    requires
        n <= xs.len(),
    ensures
        cycle_peaks(xs.take(n as int)).len() <= cycle_peaks(xs).len(),
        cycle_peaks(xs).subrange(0, cycle_peaks(xs.take(n as int)).len() as int) == cycle_peaks(
            xs.take(n as int),
        ),
{
    lemma_scan_reads_prefix(xs.take(n as int), xs, n);
    lemma_scan_grows(xs, n, xs.len());
}

/// The section is a function of the x coordinates alone: two histories with
/// the same x at every index have the same peaks, so taking the section of
/// one history twice gives one answer.
pub proof fn lemma_section_is_determined(first: Seq<Hyperion>, second: Seq<Hyperion>)
    requires
        first.len() == second.len(),
        forall|i: int| 0 <= i < first.len() ==> first[i].x == second[i].x,
    ensures
        cycle_peaks(abscissae(first)) == cycle_peaks(abscissae(second)),
{
    assert(abscissae(first) =~= abscissae(second));
}

/// A history of fewer than two states has no peak.
pub proof fn lemma_short_history_has_no_peak(xs: Seq<Binary64>)
    requires
        xs.len() <= 1,
    ensures
        cycle_peaks(xs).len() == 0,
{
    lemma_peaks_ascend(xs);
}

/// Without a reading below zero no cycle closes, so there is no peak: a
/// cycle that is still open at the end of the history does not count.
pub proof fn lemma_open_cycle_has_no_peak(xs: Seq<Binary64>, n: nat)
    requires
        n <= xs.len(),
        forall|i: int| 0 <= i < n ==> !(#[trigger] xs[i]).negative(),
    ensures
        scan(xs, n).closed.len() == 0,
    decreases n,
{
    if n > 0 {
        lemma_open_cycle_has_no_peak(xs, (n - 1) as nat);
    }
}

/// The section of a history: the index of the peak of each closed cycle, in
/// ascending order. An index is returned exactly when it is the first
/// maximum of `x` over a cycle that opened and closed.
pub fn sample(trajectory: &HyperionStates) -> (peaks: Vec<usize>)
    ensures
        indices(peaks@) == cycle_peaks(abscissae(trajectory@)),
        forall|m: int| #[trigger]
            indices(peaks@).contains(m) <==> is_cycle_peak(abscissae(trajectory@), m),
        forall|k: int, l: int| 0 <= k < l < peaks@.len() ==> #[trigger] peaks@[k] < #[trigger] peaks@[l],
        forall|k: int| 0 <= k < peaks@.len() ==> #[trigger] peaks@[k] < trajectory@.len(),
{
    let ghost xs = abscissae(trajectory@);
    let count: usize = trajectory.states.len();
    let mut peaks: Vec<usize> = Vec::new();
    let mut peak: Option<usize> = None;
    let mut i: usize = 0;
    assert(indices(peaks@) =~= scan(xs, 0).closed);
    while i < count
        invariant
            i <= count,
            count == trajectory.states.len(),
            xs == abscissae(trajectory@),
            indices(peaks@) == scan(xs, i as nat).closed,
            match peak {
                None => scan(xs, i as nat).peak is None,
                Some(p) => p < i && scan(xs, i as nat).peak == Some(p as int),
            },
        decreases count - i,
    {
        let x: Binary64 = trajectory.states[i].x;
        let ghost before = peaks@;
        match peak {
            None => {
                if x.is_positive() {
                    peak = Some(i);
                }
            },
            Some(p) => {
                if x.gt(&trajectory.states[p].x) {
                    peak = Some(i);
                } else if x.is_negative() {
                    peaks.push(p);
                    peak = None;
                    assert(indices(peaks@) =~= indices(before).push(p as int));
                }
            },
        }
        i += 1;
    }
    proof {
        lemma_peaks_ascend(xs);
        assert forall|m: int| #[trigger]
            indices(peaks@).contains(m) <==> is_cycle_peak(xs, m) by {
            lemma_peaks_are_cycle_maxima(xs, m);
        }
        assert forall|k: int, l: int| 0 <= k < l < peaks@.len() implies #[trigger] peaks@[k]
            < #[trigger] peaks@[l] by {
            assert(indices(peaks@)[k] < indices(peaks@)[l]);
        }
        assert forall|k: int| 0 <= k < peaks@.len() implies #[trigger] peaks@[k] < trajectory@.len() by {
            assert(indices(peaks@)[k] < xs.len());
        }
    }
    peaks
}

} // verus!
