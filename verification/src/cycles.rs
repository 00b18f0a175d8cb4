//! What the section means, said without a scan: the cycles of a sequence of
//! readings, the maximum of a cycle, and the proof that the scan records
//! exactly the first maximum of every closed cycle.

use vstd::prelude::*;
use crate::binary64::Binary64;
use crate::sampler::{cycle_peaks, scan};

verus! {

/// Some reading strictly between `from` and `to` is below zero.
pub open spec fn has_negative(xs: Seq<Binary64>, from: int, to: int) -> bool {
    exists|k: int| from < k < to && (#[trigger] xs[k]).negative()
}

/// No cycle is open after the first `n` readings: a reading below zero
/// follows every reading above zero among them.
pub open spec fn idle_at(xs: Seq<Binary64>, n: int) -> bool {
    forall|j: int| 0 <= j < n && (#[trigger] xs[j]).positive() ==> has_negative(xs, j, n)
}

/// A cycle opens at `s` and is still open after the first `n` readings: no
/// cycle is open before `s`, the reading at `s` is above zero, and none after
/// it is below zero.
pub open spec fn open_cycle(xs: Seq<Binary64>, s: int, n: int) -> bool {
    &&& 0 <= s < n <= xs.len()
    &&& idle_at(xs, s)
    &&& xs[s].positive()
    &&& !has_negative(xs, s, n)
}

/// A cycle opens at `s` and closes at `e`, the first reading below zero
/// after `s`.
pub open spec fn closed_cycle(xs: Seq<Binary64>, s: int, e: int) -> bool {
    &&& open_cycle(xs, s, e)
    &&& e < xs.len()
    &&& xs[e].negative()
}

/// `m` is the first maximum of the readings from `s` up to `e`: a number
/// that none of them exceeds and that exceeds every number before it.
pub open spec fn first_maximum(xs: Seq<Binary64>, s: int, e: int, m: int) -> bool {
    &&& s <= m < e
    &&& !xs[m].nan()
    &&& forall|j: int| s <= j < e ==> !(#[trigger] xs[j]).exceeds(xs[m])
    &&& forall|j: int| s <= j < m && !(#[trigger] xs[j]).nan() ==> xs[m].exceeds(xs[j])
}

/// `m` is the first maximum of a cycle that closes within the first `n`
/// readings.
pub open spec fn peak_within(xs: Seq<Binary64>, n: int, m: int) -> bool {
    exists|s: int, e: int| e < n && #[trigger] closed_cycle(xs, s, e) && first_maximum(xs, s, e, m)
}

/// `m` is the first maximum of a closed cycle of `xs`.
pub open spec fn is_cycle_peak(xs: Seq<Binary64>, m: int) -> bool {
    peak_within(xs, xs.len() as int, m)
}

/// Where the cycle opened that is open after the first `n` readings.
pub open spec fn opened(xs: Seq<Binary64>, n: nat) -> int
    decreases n,
{
    if n == 0 {
        0
    } else if scan(xs, (n - 1) as nat).peak is None {
        n - 1
    } else {
        opened(xs, (n - 1) as nat)
    }
}

/// What the open peak of a scan means: with none, no cycle is open; with
/// one, it is the first maximum so far of the cycle that is open.
pub open spec fn scan_meaning(xs: Seq<Binary64>, n: nat) -> bool {
    match scan(xs, n).peak {
        None => idle_at(xs, n as int),
        Some(p) => open_cycle(xs, opened(xs, n), n as int) && first_maximum(
            xs,
            opened(xs, n),
            n as int,
            p,
        ),
    }
}

/// A cycle opens at one place only.
pub proof fn lemma_cycle_opens_once(xs: Seq<Binary64>, s: int, t: int, n: int)
    requires
        open_cycle(xs, s, n),
        open_cycle(xs, t, n),
    ensures
        s == t,
{
    if s < t {
        assert(has_negative(xs, s, t));
    } else if t < s {
        assert(has_negative(xs, t, s));
    }
}

/// A stretch of readings has one first maximum at most.
pub proof fn lemma_first_maximum_is_unique(xs: Seq<Binary64>, s: int, e: int, m: int, p: int)
    requires
        first_maximum(xs, s, e, m),
        first_maximum(xs, s, e, p),
    ensures
        m == p,
{
    if m < p {
        assert(xs[p].exceeds(xs[m]));
    } else if p < m {
        assert(xs[m].exceeds(xs[p]));
    }
}

/// The first maximum of an open cycle is above zero.
pub proof fn lemma_maximum_is_positive(xs: Seq<Binary64>, s: int, n: int, p: int)
    requires
        open_cycle(xs, s, n),
        first_maximum(xs, s, n, p),
    ensures
        xs[p].positive(),
{
    assert(!xs[s].exceeds(xs[p]));
}

/// Every scan of a prefix means what `scan_meaning` says.
pub proof fn lemma_scan_meaning(xs: Seq<Binary64>, n: nat)
    requires
        n <= xs.len(),
    ensures
        scan_meaning(xs, n),
    decreases n,
{
    if n > 0 {
        let i = (n - 1) as nat;
        lemma_scan_meaning(xs, i);
        match scan(xs, i).peak {
            None => {
                if xs[i as int].positive() {
                } else {
                    assert forall|j: int| 0 <= j < n && (#[trigger] xs[j]).positive() implies has_negative(
                        xs,
                        j,
                        n as int,
                    ) by {
                        assert(has_negative(xs, j, i as int));
                    }
                }
            },
            Some(p) => {
                let s = opened(xs, i);
                lemma_maximum_is_positive(xs, s, i as int, p);
                if xs[i as int].exceeds(xs[p]) {
                } else if xs[i as int].negative() {
                    assert forall|j: int| 0 <= j < n && (#[trigger] xs[j]).positive() implies has_negative(
                        xs,
                        j,
                        n as int,
                    ) by {
                        assert(xs[i as int].negative());
                    }
                } else {
                }
            },
        }
    }
}

/// Every index that a scan has recorded is the first maximum of a cycle
/// that closed among the readings scanned.
pub proof fn lemma_recorded_is_peak(xs: Seq<Binary64>, n: nat, k: int)
    requires
        n <= xs.len(),
        0 <= k < scan(xs, n).closed.len(),
    ensures
        peak_within(xs, n as int, scan(xs, n).closed[k]),
    decreases n,
{
    if n > 0 {
        let i = (n - 1) as nat;
        let before = scan(xs, i);
        if k < before.closed.len() {
            lemma_recorded_is_peak(xs, i, k);
            let m = before.closed[k];
            let (s, e) = choose|s: int, e: int|
                e < i && #[trigger] closed_cycle(xs, s, e) && first_maximum(xs, s, e, m);
            assert(e < n && closed_cycle(xs, s, e) && first_maximum(xs, s, e, m));
        } else {
            lemma_scan_meaning(xs, i);
            let p = before.peak->Some_0;
            let s = opened(xs, i);
            assert(closed_cycle(xs, s, i as int) && first_maximum(xs, s, i as int, p));
        }
    }
}

/// Every first maximum of a cycle that closed among the readings scanned
/// has been recorded.
pub proof fn lemma_peak_is_recorded(xs: Seq<Binary64>, n: nat, m: int)
    requires
        n <= xs.len(),
        peak_within(xs, n as int, m),
    ensures
        scan(xs, n).closed.contains(m),
    decreases n,
{
    let (s, e) = choose|s: int, e: int|
        e < n && #[trigger] closed_cycle(xs, s, e) && first_maximum(xs, s, e, m);
    if n > 0 {
        let i = (n - 1) as nat;
        let before = scan(xs, i);
        if e < i {
            lemma_peak_is_recorded(xs, i, m);
            let k = choose|k: int| 0 <= k < before.closed.len() && before.closed[k] == m;
            assert(scan(xs, n).closed[k] == m);
        } else {
            lemma_scan_meaning(xs, i);
            match before.peak {
                None => {
                    assert(has_negative(xs, s, e));
                },
                Some(p) => {
                    let opening = opened(xs, i);
                    lemma_maximum_is_positive(xs, opening, i as int, p);
                    lemma_cycle_opens_once(xs, s, opening, i as int);
                    lemma_first_maximum_is_unique(xs, s, e, m, p);
                    assert(scan(xs, n).closed == before.closed.push(p));
                    assert(scan(xs, n).closed[before.closed.len() as int] == m);
                },
            }
        }
    }
}

/// The section is exactly the set of first maxima of the closed cycles: an
/// index is among the peaks if and only if it is the first maximum of a
/// cycle that opened and closed.
pub proof fn lemma_peaks_are_cycle_maxima(xs: Seq<Binary64>, m: int)
    ensures
        cycle_peaks(xs).contains(m) <==> is_cycle_peak(xs, m),
{
    if cycle_peaks(xs).contains(m) {
        let k = choose|k: int| 0 <= k < cycle_peaks(xs).len() && cycle_peaks(xs)[k] == m;
        lemma_recorded_is_peak(xs, xs.len(), k);
    }
    if is_cycle_peak(xs, m) {
        lemma_peak_is_recorded(xs, xs.len(), m);
    }
}

} // verus!
