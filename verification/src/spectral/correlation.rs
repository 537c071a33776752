//! The correlation of a signal with itself.

use vstd::prelude::*;
use core::ops::{Add, Mul};
use crate::sample::{adds_to, always_adds, always_multiplies, is_silence, multiplies_to};

verus! {

/// `value` is the correlation of `signal` with itself at `lag` over a window of `window`
/// samples, as the intermediate values show: `products[i]` is what
/// `signal[i] * signal[lag + i]` gave, and `sums` adds the products up from silence, one by one
/// and in order. `value` is the last of the sums.
pub open spec fn is_correlation_by<T: Default + Add<Output = T> + Mul<Output = T>>(
    signal: Seq<T>,
    window: int,
    lag: int,
    products: Seq<T>,
    sums: Seq<T>,
    value: T,
) -> bool {
    &&& products.len() == window
    &&& sums.len() == window + 1
    &&& is_silence(sums[0])
    &&& forall|i: int|
        0 <= i < window ==> {
            &&& multiplies_to(signal[i], signal[lag + i], #[trigger] products[i])
            &&& adds_to(sums[i], products[i], sums[i + 1])
        }
    &&& value == sums[window]
}

/// `value` is a value that the dot product of `signal[0..window)` with
/// `signal[lag..lag + window)` may come to.
pub open spec fn is_correlation<T: Default + Add<Output = T> + Mul<Output = T>>(
    signal: Seq<T>,
    window: int,
    lag: int,
    value: T,
) -> bool {
    exists|products: Seq<T>, sums: Seq<T>|
        is_correlation_by(signal, window, lag, products, sums, value)
}

/// The dot product of the first `window_size` samples with the `window_size` samples from
/// `lag` on.
fn correlation_at<T: Copy + Default + Add<Output = T> + Mul<Output = T>>(
    signal: &[T],
    window_size: usize,
    lag: usize,
) -> (value: T)
    requires
        lag < window_size,
        signal.len() >= 2 * window_size - 1,
        always_adds::<T>(),
        always_multiplies::<T>(),
    ensures
        is_correlation(signal@, window_size as int, lag as int, value),
{
    let mut sum = T::default();
    let ghost mut products: Seq<T> = Seq::empty();
    let ghost mut sums: Seq<T> = seq![sum];
    let mut i: usize = 0;
    while i < window_size
        invariant
            lag < window_size,
            signal.len() >= 2 * window_size - 1,
            always_adds::<T>(),
            always_multiplies::<T>(),
            i <= window_size,
            products.len() == i,
            sums.len() == i + 1,
            is_silence(sums[0]),
            forall|j: int|
                0 <= j < i ==> {
                    &&& multiplies_to(signal@[j], signal@[lag + j], #[trigger] products[j])
                    &&& adds_to(sums[j], products[j], sums[j + 1])
                },
            sum == sums[i as int],
        decreases window_size - i,
    {
        let x = signal[i];
        let y = signal[lag + i];
        assert(call_requires(T::mul, (x, y)));
        let product = x * y;
        assert(call_requires(T::add, (sum, product)));
        sum = sum + product;
        proof {
            products = products.push(product);
            sums = sums.push(sum);
        }
        i += 1;
    }
    assert(is_correlation_by(signal@, window_size as int, lag as int, products, sums, sum));
    sum
}

/// The autocorrelation of a signal over a window: for each lag below `window_size`, in
/// increasing order, the dot product of the first `window_size` samples with the `window_size`
/// samples that start at the lag. The products are added up from silence in the order of the
/// samples, and nothing is divided by the energy.
///
/// The signal has to reach as far as the last window does: at least `2 * window_size - 1`
/// samples.
pub fn autocorrelation<T: Copy + Default + Add<Output = T> + Mul<Output = T>>(
    signal: &[T],
    window_size: usize,
) -> (out: Vec<T>)
    requires
        window_size > 0 ==> signal.len() >= 2 * window_size - 1,
        always_adds::<T>(),
        always_multiplies::<T>(),
    ensures
        out.len() == window_size,
        forall|lag: int|
            0 <= lag < window_size ==> is_correlation(
                signal@,
                window_size as int,
                lag,
                #[trigger] out@[lag],
            ),
{
    let mut out: Vec<T> = Vec::new();
    let mut lag: usize = 0;
    while lag < window_size
        invariant
            window_size > 0 ==> signal.len() >= 2 * window_size - 1,
            always_adds::<T>(),
            always_multiplies::<T>(),
            lag <= window_size,
            out.len() == lag,
            forall|l: int|
                0 <= l < lag ==> is_correlation(signal@, window_size as int, l, #[trigger] out@[l]),
        decreases window_size - lag,
    {
        out.push(correlation_at(signal, window_size, lag));
        lag += 1;
    }
    out
}

/// On a signal that repeats with a period, the correlation a period later is the correlation
/// at the lag itself: the two are sums of the same products.
pub proof fn lemma_correlation_repeats_with_period<T: Default + Add<Output = T> + Mul<Output = T>>(
    signal: Seq<T>,
    window: int,
    lag: int,
    period: int,
    value: T,
)
    requires
        0 <= lag,
        0 <= period,
        0 <= window,
        lag + period + window <= signal.len(),
        forall|i: int|
            0 <= i && i + period < signal.len() ==> signal[i + period] == #[trigger] signal[i],
    ensures
        is_correlation(signal, window, lag, value) <==> is_correlation(
            signal,
            window,
            lag + period,
            value,
        ),
{
    if is_correlation(signal, window, lag, value) {
        let (products, sums) = choose|products: Seq<T>, sums: Seq<T>|
            is_correlation_by(signal, window, lag, products, sums, value);
        assert forall|i: int| 0 <= i < window implies multiplies_to(
            signal[i],
            signal[lag + period + i],
            #[trigger] products[i],
        ) by {
            assert(signal[(lag + i) + period] == signal[lag + i]);
        }
        assert(is_correlation_by(signal, window, lag + period, products, sums, value));
    }
    let later = lag + period;
    if is_correlation(signal, window, later, value) {
        let (products, sums) = choose|products: Seq<T>, sums: Seq<T>|
            is_correlation_by(signal, window, later, products, sums, value);
        assert forall|i: int| 0 <= i < window implies multiplies_to(
            signal[i],
            signal[lag + i],
            #[trigger] products[i],
        ) by {
            assert(signal[(lag + i) + period] == signal[lag + i]);
        }
        assert(is_correlation_by(signal, window, lag, products, sums, value));
    }
}

/// On a signal that repeats with a period, the correlation at every lag that is a multiple of
/// the period is the correlation at lag zero, the energy of the window.
pub proof fn lemma_correlation_at_multiples_of_period<
    T: Default + Add<Output = T> + Mul<Output = T>,
>(signal: Seq<T>, window: int, period: int, multiple: nat, value: T)
    requires
        0 <= period,
        0 <= window,
        multiple * period + window <= signal.len(),
        forall|i: int|
            0 <= i && i + period < signal.len() ==> signal[i + period] == #[trigger] signal[i],
    ensures
        is_correlation(signal, window, 0, value) <==> is_correlation(
            signal,
            window,
            multiple * period,
            value,
        ),
    decreases multiple,
{
    if multiple > 0 {
        let before = (multiple - 1) as nat;
        assert(multiple * period == before * period + period) by (nonlinear_arith)
            requires
                before == multiple - 1,
        ;
        assert(0 <= before * period) by (nonlinear_arith)
            requires
                0 <= before,
                0 <= period,
        ;
        lemma_correlation_at_multiples_of_period(signal, window, period, before, value);
        lemma_correlation_repeats_with_period(signal, window, before * period, period, value);
    } else {
        assert(multiple * period == 0) by (nonlinear_arith)
            requires
                multiple == 0,
        ;
    }
}

} // verus!
