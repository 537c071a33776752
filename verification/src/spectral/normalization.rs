//! Normalization of a signal by its largest sample.

use vstd::prelude::*;
use core::ops::Div;
use crate::sample::{always_divides, exceeds, is_silence};
use crate::spectral::peak::{
    is_peak_scan, is_scaled, lemma_flat_scan, lemma_never_rises, lemma_peak_is_a_sample, peak_of,
    scaled,
};

verus! {

/// `out` is `signal` normalized, as the scan `peaks`, `rises` from the silent sample `zero`
/// shows: where a sample rose above silence, every sample divided by the peak; where none
/// did, silence throughout.
pub open spec fn is_normalized_by<T: Default + PartialOrd + Div<Output = T>>(
    signal: Seq<T>,
    zero: T,
    peaks: Seq<T>,
    rises: Seq<bool>,
    out: Seq<T>,
) -> bool {
    &&& is_silence(zero)
    &&& is_peak_scan(signal, zero, peaks, rises)
    &&& if rises.contains(true) {
        is_scaled(signal, peaks.last(), out)
    } else {
        out.len() == signal.len() && forall|i: int|
            0 <= i < signal.len() ==> #[trigger] out[i] == zero
    }
}

/// `out` is a value that `signal` normalized may come to.
pub open spec fn is_normalized<T: Default + PartialOrd + Div<Output = T>>(
    signal: Seq<T>,
    out: Seq<T>,
) -> bool {
    exists|zero: T, peaks: Seq<T>, rises: Seq<bool>|
        is_normalized_by(signal, zero, peaks, rises, out)
}

/// `count` copies of `sample`.
fn repeated<T: Copy>(sample: T, count: usize) -> (out: Vec<T>)
    ensures
        out.len() == count,
        forall|i: int| 0 <= i < count ==> #[trigger] out@[i] == sample,
{
    let mut out: Vec<T> = Vec::new();
    let mut i: usize = 0;
    while i < count
        invariant
            i <= count,
            out.len() == i,
            forall|j: int| 0 <= j < i ==> #[trigger] out@[j] == sample,
        decreases count - i,
    {
        out.push(sample);
        i += 1;
    }
    out
}

/// Normalizes a signal by its largest sample. The scan for the peak starts at silence, so only
/// a sample above silence counts: a signal with none comes back as silence of the same length,
/// any other with every sample divided by the peak. The input is left as it is.
pub fn normalize<T: Copy + Default + PartialOrd + Div<Output = T>>(signal: &[T]) -> (out: Vec<T>)
    requires
        always_divides::<T>(),
    ensures
        out.len() == signal.len(),
        is_normalized(signal@, out@),
{
    let zero = T::default();
    let (peak, raised, Ghost(peaks), Ghost(rises)) = peak_of(signal, zero);
    let out = if raised {
        scaled(signal, peak)
    } else {
        repeated(zero, signal.len())
    };
    assert(is_normalized_by(signal@, zero, peaks, rises, out@));
    out
}

/// A signal with no sample above silence normalizes to silence of the same length: where
/// `signal[i] > zero` gives `false` for every sample and every silent `zero`, every sample of
/// the result is silent.
pub proof fn lemma_quiet_signal_normalizes_to_silence<
    T: Default + PartialOrd + Div<Output = T>,
>(signal: Seq<T>, out: Seq<T>)
    requires
        is_normalized(signal, out),
        forall|i: int, zero: T|
            0 <= i < signal.len() && is_silence(zero) ==> !#[trigger] exceeds(signal[i], zero, true),
    ensures
        out.len() == signal.len(),
        forall|i: int| 0 <= i < out.len() ==> is_silence(#[trigger] out[i]),
{
    let (zero, peaks, rises) = choose|zero: T, peaks: Seq<T>, rises: Seq<bool>|
        is_normalized_by(signal, zero, peaks, rises, out);
    assert forall|upto: int| 0 <= upto < signal.len() implies !#[trigger] rises[upto] by {
        lemma_never_rises(signal, zero, peaks, rises, upto);
    }
    assert(!rises.contains(true));
    assert forall|i: int| 0 <= i < out.len() implies is_silence(#[trigger] out[i]) by {
        assert(out[i] == zero);
    }
}

/// A signal with a sample above silence is divided by its peak: where `signal[loud] > zero`
/// gives `true` for some sample and every silent `zero`, the peak is a sample of the signal,
/// `signal[at]`, and every sample of the result is what the sample of the signal divided by
/// the peak gave. At the place of the peak the result holds what the peak divided by itself
/// gave.
pub proof fn lemma_loud_signal_normalizes_by_peak<T: Default + PartialOrd + Div<Output = T>>(
    signal: Seq<T>,
    out: Seq<T>,
    loud: int,
)
    requires
        is_normalized(signal, out),
        0 <= loud < signal.len(),
        forall|zero: T| is_silence(zero) ==> !exceeds(signal[loud], zero, false),
    ensures
        out.len() == signal.len(),
        exists|at: int|
            0 <= at < signal.len() && is_scaled(signal, #[trigger] signal[at], out),
{
    let (zero, peaks, rises) = choose|zero: T, peaks: Seq<T>, rises: Seq<bool>|
        is_normalized_by(signal, zero, peaks, rises, out);
    if !rises.contains(true) {
        assert forall|j: int| 0 <= j < loud implies !rises[j] by {
            if rises[j] {
                assert(rises.contains(true));
            }
        }
        lemma_flat_scan(signal, zero, peaks, rises, loud);
        assert(exceeds(signal[loud], peaks[loud], rises[loud]));
        assert(rises[loud]);
        assert(false);
    }
    lemma_peak_is_a_sample(signal, zero, peaks, rises);
    let peak = peaks.last();
    let at = choose|at: int| 0 <= at < signal.len() && signal[at] == peak;
    assert(is_scaled(signal, signal[at], out));
}

} // verus!
