//! The scan for the largest sample of a signal, and the division of a signal by a sample.

use vstd::prelude::*;
use core::ops::Div;
use crate::sample::{always_divides, divides_to, exceeds};

verus! {

/// `peaks` and `rises` record a scan of `signal` for its largest sample, starting at `floor`:
/// `rises[i]` is what `signal[i] > peaks[i]` gave, and `peaks[i + 1]` is `signal[i]` where it
/// gave `true`, `peaks[i]` where it did not. The last of `peaks` is the peak.
pub open spec fn is_peak_scan<T: PartialOrd>(
    signal: Seq<T>,
    floor: T,
    peaks: Seq<T>,
    rises: Seq<bool>,
) -> bool {
    &&& peaks.len() == signal.len() + 1
    &&& rises.len() == signal.len()
    &&& peaks[0] == floor
    &&& forall|i: int|
        0 <= i < signal.len() ==> {
            &&& exceeds(signal[i], peaks[i], #[trigger] rises[i])
            &&& peaks[i + 1] == if rises[i] {
                signal[i]
            } else {
                peaks[i]
            }
        }
}

/// `out` is `signal` with every sample divided by `divisor`: `out[i]` is what
/// `signal[i] / divisor` gave.
pub open spec fn is_scaled<T: Div<Output = T>>(signal: Seq<T>, divisor: T, out: Seq<T>) -> bool {
    &&& out.len() == signal.len()
    &&& forall|i: int| 0 <= i < signal.len() ==> divides_to(signal[i], divisor, #[trigger] out[i])
}

/// Scans `signal` for its largest sample, starting at `floor`. Gives the peak, and whether any
/// sample rose above what was the peak until then.
pub(crate) fn peak_of<T: Copy + PartialOrd>(signal: &[T], floor: T) -> (found: (
    T,
    bool,
    Ghost<Seq<T>>,
    Ghost<Seq<bool>>,
))
    ensures
        is_peak_scan(signal@, floor, found.2@, found.3@),
        found.0 == found.2@.last(),
        found.1 == found.3@.contains(true),
{
    let mut peak = floor;
    let mut raised = false;
    let ghost mut peaks: Seq<T> = seq![floor];
    let ghost mut rises: Seq<bool> = Seq::empty();
    let mut i: usize = 0;
    while i < signal.len()
        invariant
            i <= signal.len(),
            peaks.len() == i + 1,
            rises.len() == i,
            peaks[0] == floor,
            forall|j: int|
                0 <= j < i ==> {
                    &&& exceeds(signal@[j], peaks[j], #[trigger] rises[j])
                    &&& peaks[j + 1] == if rises[j] {
                        signal@[j]
                    } else {
                        peaks[j]
                    }
                },
            peak == peaks.last(),
            raised == rises.contains(true),
        decreases signal.len() - i,
    {
        let higher = signal[i] > peak;
        if higher {
            peak = signal[i];
            raised = true;
        }
        proof {
            let before = rises;
            peaks = peaks.push(peak);
            rises = rises.push(higher);
            assert(rises[i as int] == higher);
            if before.contains(true) {
                let at = choose|at: int| 0 <= at < before.len() && before[at] == true;
                assert(rises[at] == true);
            }
            if rises.contains(true) && !higher {
                let at = choose|at: int| 0 <= at < rises.len() && rises[at] == true;
                assert(before[at] == true);
            }
        }
        i += 1;
    }
    (peak, raised, Ghost(peaks), Ghost(rises))
}

/// Every sample of `signal` divided by `divisor`.
pub(crate) fn scaled<T: Copy + Div<Output = T>>(signal: &[T], divisor: T) -> (out: Vec<T>)
    requires
        always_divides::<T>(),
    ensures
        is_scaled(signal@, divisor, out@),
{
    let mut out: Vec<T> = Vec::new();
    let mut i: usize = 0;
    while i < signal.len()
        invariant
            always_divides::<T>(),
            i <= signal.len(),
            out.len() == i,
            forall|j: int| 0 <= j < i ==> divides_to(signal@[j], divisor, #[trigger] out@[j]),
        decreases signal.len() - i,
    {
        assert(call_requires(T::div, (signal@[i as int], divisor)));
        out.push(signal[i] / divisor);
        i += 1;
    }
    out
}

/// While a scan has not risen, the peak is still where the scan started.
pub(crate) proof fn lemma_flat_scan<T: PartialOrd>(
    signal: Seq<T>,
    floor: T,
    peaks: Seq<T>,
    rises: Seq<bool>,
    upto: int,
)
    requires
        is_peak_scan(signal, floor, peaks, rises),
        0 <= upto <= signal.len(),
        forall|j: int| 0 <= j < upto ==> !rises[j],
    ensures
        peaks[upto] == floor,
    decreases upto,
{
    if upto > 0 {
        lemma_flat_scan(signal, floor, peaks, rises, upto - 1);
        assert(!rises[upto - 1]);
    }
}

/// A scan does not rise at a sample that never compares above the floor, when it has not risen
/// before it either.
pub(crate) proof fn lemma_never_rises<T: PartialOrd>(
    signal: Seq<T>,
    floor: T,
    peaks: Seq<T>,
    rises: Seq<bool>,
    at: int,
)
    requires
        is_peak_scan(signal, floor, peaks, rises),
        0 <= at < signal.len(),
        forall|i: int| 0 <= i < signal.len() ==> !#[trigger] exceeds(signal[i], floor, true),
    ensures
        !rises[at],
    decreases at,
{
    assert forall|j: int| 0 <= j < at implies !rises[j] by {
        lemma_never_rises(signal, floor, peaks, rises, j);
    }
    lemma_flat_scan(signal, floor, peaks, rises, at);
    assert(exceeds(signal[at], peaks[at], rises[at]));
}

/// The peak that a scan ends with is where it started or a sample of the signal; and where the
/// scan rose, it is a sample.
pub proof fn lemma_peak_is_a_sample<T: PartialOrd>(
    signal: Seq<T>,
    floor: T,
    peaks: Seq<T>,
    rises: Seq<bool>,
)
    requires
        is_peak_scan(signal, floor, peaks, rises),
    ensures
        peaks.last() == floor || signal.contains(peaks.last()),
        rises.contains(true) ==> signal.contains(peaks.last()),
    decreases signal.len(),
{
    if signal.len() > 0 {
        let last = signal.len() - 1;
        let shorter = signal.drop_last();
        let peaks_before = peaks.drop_last();
        let rises_before = rises.drop_last();
        assert(is_peak_scan(shorter, floor, peaks_before, rises_before)) by {
            assert forall|i: int| 0 <= i < shorter.len() implies {
                &&& exceeds(shorter[i], peaks_before[i], #[trigger] rises_before[i])
                &&& peaks_before[i + 1] == if rises_before[i] {
                    shorter[i]
                } else {
                    peaks_before[i]
                }
            } by {
                assert(rises[i] == rises_before[i]);
            }
        }
        lemma_peak_is_a_sample(shorter, floor, peaks_before, rises_before);
        let rose_at_last = rises[last];
        if rose_at_last {
            assert(signal[last] == peaks.last());
        } else {
            assert(peaks.last() == peaks_before.last());
            if shorter.contains(peaks_before.last()) {
                let at = choose|at: int| 0 <= at < shorter.len() && shorter[at] == peaks_before.last();
                assert(signal[at] == peaks.last());
            }
            if rises.contains(true) {
                let at = choose|at: int| 0 <= at < rises.len() && rises[at] == true;
                assert(rises_before[at] == true);
            }
        }
    } else {
        if rises.contains(true) {
            let at = choose|at: int| 0 <= at < rises.len() && rises[at] == true;
        }
    }
}

} // verus!
