//! The mixing of two signals.

use vstd::prelude::*;
use core::ops::{Add, Div, Neg};
use crate::sample::{
    adds_to, always_adds, always_divides, always_negates, falls_below, is_silence, negates_to,
};
use crate::spectral::peak::{is_peak_scan, is_scaled, peak_of, scaled};

verus! {

/// The sample of `signal` at `i`, or `zero` past its end: the signal padded with silence on
/// the right.
pub open spec fn padded<T>(signal: Seq<T>, zero: T, i: int) -> T {
    if 0 <= i < signal.len() {
        signal[i]
    } else {
        zero
    }
}

/// The length of the longer of two signals.
pub open spec fn longer(a: nat, b: nat) -> nat {
    if a >= b {
        a
    } else {
        b
    }
}

/// `sums` is the sample-wise sum of `a` and `b`, the shorter of them padded with `zero`:
/// `sums[i]` is what `a[i] + b[i]` gave.
pub open spec fn is_mix<T: Add<Output = T>>(a: Seq<T>, b: Seq<T>, zero: T, sums: Seq<T>) -> bool {
    &&& sums.len() == longer(a.len(), b.len())
    &&& forall|i: int|
        0 <= i < sums.len() ==> adds_to(padded(a, zero, i), padded(b, zero, i), #[trigger] sums[i])
}

/// `size` is a value that the magnitude of `x` may come to: what `-x` gave where `x < zero`
/// gave `true`, and `x` itself where it gave `false`.
pub open spec fn is_magnitude<T: PartialOrd + Neg<Output = T>>(x: T, zero: T, size: T) -> bool {
    ||| falls_below(x, zero, true) && negates_to(x, size)
    ||| falls_below(x, zero, false) && size == x
}

/// `out` is `a` joined with `b`, as the intermediate values show: `sums` is their padded
/// sample-wise sum, `sizes` the magnitudes of the sums, and `peaks`, `rises` the scan of the
/// magnitudes from the silent sample `zero`. Where a magnitude rose above silence, `out` is
/// every sum divided by the peak magnitude; where none did, `out` is the sums themselves.
pub open spec fn is_joined_by<
    T: Default + PartialOrd + Add<Output = T> + Neg<Output = T> + Div<Output = T>,
>(
    a: Seq<T>,
    b: Seq<T>,
    zero: T,
    sums: Seq<T>,
    sizes: Seq<T>,
    peaks: Seq<T>,
    rises: Seq<bool>,
    out: Seq<T>,
) -> bool {
    &&& is_silence(zero)
    &&& is_mix(a, b, zero, sums)
    &&& sizes.len() == sums.len()
    &&& forall|i: int| 0 <= i < sums.len() ==> is_magnitude(sums[i], zero, #[trigger] sizes[i])
    &&& is_peak_scan(sizes, zero, peaks, rises)
    &&& if rises.contains(true) {
        is_scaled(sums, peaks.last(), out)
    } else {
        out == sums
    }
}

/// `out` is a value that `a` joined with `b` may come to.
pub open spec fn is_joined<
    T: Default + PartialOrd + Add<Output = T> + Neg<Output = T> + Div<Output = T>,
>(a: Seq<T>, b: Seq<T>, out: Seq<T>) -> bool {
    exists|zero: T, sums: Seq<T>, sizes: Seq<T>, peaks: Seq<T>, rises: Seq<bool>|
        is_joined_by(a, b, zero, sums, sizes, peaks, rises, out)
}

/// The sample-wise sum of two signals, the shorter of them padded with `zero`.
fn mix<T: Copy + Add<Output = T>>(a: &[T], b: &[T], zero: T) -> (sums: Vec<T>)
    requires
        always_adds::<T>(),
    ensures
        is_mix(a@, b@, zero, sums@),
{
    let length = if a.len() >= b.len() {
        a.len()
    } else {
        b.len()
    };
    let mut sums: Vec<T> = Vec::new();
    let mut i: usize = 0;
    while i < length
        invariant
            always_adds::<T>(),
            length == longer(a@.len(), b@.len()),
            i <= length,
            sums.len() == i,
            forall|j: int|
                0 <= j < i ==> adds_to(
                    padded(a@, zero, j),
                    padded(b@, zero, j),
                    #[trigger] sums@[j],
                ),
        decreases length - i,
    {
        let x = if i < a.len() {
            a[i]
        } else {
            zero
        };
        let y = if i < b.len() {
            b[i]
        } else {
            zero
        };
        assert(call_requires(T::add, (x, y)));
        sums.push(x + y);
        i += 1;
    }
    sums
}

/// The magnitude of every sample of a signal.
fn magnitudes<T: Copy + PartialOrd + Neg<Output = T>>(signal: &[T], zero: T) -> (sizes: Vec<T>)
    requires
        always_negates::<T>(),
    ensures
        sizes.len() == signal.len(),
        forall|i: int|
            0 <= i < signal.len() ==> is_magnitude(signal@[i], zero, #[trigger] sizes@[i]),
{
    let mut sizes: Vec<T> = Vec::new();
    let mut i: usize = 0;
    while i < signal.len()
        invariant
            always_negates::<T>(),
            i <= signal.len(),
            sizes.len() == i,
            forall|j: int| 0 <= j < i ==> is_magnitude(signal@[j], zero, #[trigger] sizes@[j]),
        decreases signal.len() - i,
    {
        let x = signal[i];
        if x < zero {
            assert(call_requires(T::neg, (x,)));
            sizes.push(x.neg());
        } else {
            sizes.push(x);
        }
        i += 1;
    }
    sizes
}

/// Mixes two signals: their sample-wise sum, the shorter of them padded with silence on the
/// right, scaled so that the largest magnitude becomes one. The sums are divided by the peak
/// of their magnitudes; a sum with no magnitude above silence is given as it is, since there is
/// nothing to divide by.
pub fn join<T>(a: &[T], b: &[T]) -> (out: Vec<T>) where
    T: Copy + Default + PartialOrd + Add<Output = T> + Neg<Output = T> + Div<Output = T>,

    requires
        always_adds::<T>(),
        always_negates::<T>(),
        always_divides::<T>(),
    ensures
        out.len() == longer(a@.len(), b@.len()),
        is_joined(a@, b@, out@),
{
    let zero = T::default();
    let sums = mix(a, b, zero);
    let sizes = magnitudes(sums.as_slice(), zero);
    let (peak, raised, Ghost(peaks), Ghost(rises)) = peak_of(sizes.as_slice(), zero);
    let ghost summed = sums@;
    let out = if raised {
        scaled(sums.as_slice(), peak)
    } else {
        sums
    };
    assert(is_joined_by(a@, b@, zero, summed, sizes@, peaks, rises, out@));
    out
}

/// The sums that joining scales are taken sample by sample: the sum of the two samples where
/// both signals have one, and of the sample of the longer signal and silence past the end of
/// the shorter.
pub proof fn lemma_mix_sums_sample_by_sample<T: Add<Output = T>>(
    a: Seq<T>,
    b: Seq<T>,
    zero: T,
    sums: Seq<T>,
)
    requires
        is_mix(a, b, zero, sums),
    ensures
        sums.len() == longer(a.len(), b.len()),
        a.len() == b.len() ==> forall|i: int|
            0 <= i < a.len() ==> adds_to(a[i], b[i], #[trigger] sums[i]),
        forall|i: int| 0 <= i < a.len() && i < b.len() ==> adds_to(a[i], b[i], #[trigger] sums[i]),
        forall|i: int| b.len() <= i < a.len() ==> adds_to(a[i], zero, #[trigger] sums[i]),
        forall|i: int| a.len() <= i < b.len() ==> adds_to(zero, b[i], #[trigger] sums[i]),
{
    assert forall|i: int| 0 <= i < sums.len() implies adds_to(
        padded(a, zero, i),
        padded(b, zero, i),
        #[trigger] sums[i],
    ) by {}
}

/// What joining gives: a signal as long as the longer of the two, empty where both are empty,
/// that is the padded sample-wise sums of the two, as they are or every one of them divided by
/// one divisor.
pub proof fn lemma_join_scales_the_padded_sums<
    T: Default + PartialOrd + Add<Output = T> + Neg<Output = T> + Div<Output = T>,
>(a: Seq<T>, b: Seq<T>, out: Seq<T>)
    requires
        is_joined(a, b, out),
    ensures
        out.len() == longer(a.len(), b.len()),
        a.len() == 0 && b.len() == 0 ==> out.len() == 0,
        exists|zero: T, sums: Seq<T>|
            {
                &&& is_silence(zero)
                &&& #[trigger] is_mix(a, b, zero, sums)
                &&& (out == sums || exists|divisor: T| #[trigger] is_scaled(sums, divisor, out))
            },
{
    let (zero, sums, sizes, peaks, rises) = choose|
        zero: T,
        sums: Seq<T>,
        sizes: Seq<T>,
        peaks: Seq<T>,
        rises: Seq<bool>,
    |
        is_joined_by(a, b, zero, sums, sizes, peaks, rises, out);
    if rises.contains(true) {
        assert(is_scaled(sums, peaks.last(), out));
    }
    assert(is_mix(a, b, zero, sums));
}

} // verus!
