//! The magnitude spectrum of a signal.

use vstd::prelude::*;
use vstd::arithmetic::div_mod::{
    lemma_add_mod_noop_right, lemma_mod_add_multiples_vanish, lemma_small_mod,
};
use core::ops::{Add, Mul, Sub};
use crate::sample::{
    adds_to, always_adds, always_multiplies, always_subtracts, is_silence, multiplies_to,
    subtracts_to,
};

verus! {

/// `value` is bin `k` of the magnitude spectrum of `signal`, as the intermediate values show.
/// With `n` the length of the signal, `points[t]` is what `twiddle` gave for the angle of
/// `(k * t) % n` parts in `n` of a turn; `re_terms[t]` and `im_terms[t]` are what the sample
/// `signal[t]` times the first and the second half of that point gave; `re` adds the first up
/// from silence and `im` takes the second away from silence, one by one and in order. `value`
/// is what `magnitude` gave for the last of `re` and of `im`.
pub open spec fn is_bin_by<
    T: Default + Add<Output = T> + Sub<Output = T> + Mul<Output = T>,
    C: Fn(usize, usize) -> (T, T),
    M: Fn(T, T) -> T,
>(
    signal: Seq<T>,
    k: int,
    twiddle: C,
    magnitude: M,
    points: Seq<(T, T)>,
    re_terms: Seq<T>,
    im_terms: Seq<T>,
    re: Seq<T>,
    im: Seq<T>,
    value: T,
) -> bool {
    let n = signal.len() as int;
    &&& points.len() == n
    &&& re_terms.len() == n
    &&& im_terms.len() == n
    &&& re.len() == n + 1
    &&& im.len() == n + 1
    &&& is_silence(re[0])
    &&& is_silence(im[0])
    &&& forall|t: int|
        0 <= t < n ==> {
            &&& call_ensures(twiddle, (((k * t) % n) as usize, n as usize), #[trigger] points[t])
            &&& multiplies_to(signal[t], points[t].0, re_terms[t])
            &&& multiplies_to(signal[t], points[t].1, im_terms[t])
            &&& adds_to(re[t], re_terms[t], re[t + 1])
            &&& subtracts_to(im[t], im_terms[t], im[t + 1])
        }
    &&& call_ensures(magnitude, (re[n], im[n]), value)
}

/// `value` is a value that bin `k` of the magnitude spectrum of `signal` may come to: the
/// magnitude of the sum, over the samples `signal[t]`, of `signal[t]` times the point of the
/// unit circle at `-(k * t)` parts in `n` of a turn.
pub open spec fn is_bin<
    T: Default + Add<Output = T> + Sub<Output = T> + Mul<Output = T>,
    C: Fn(usize, usize) -> (T, T),
    M: Fn(T, T) -> T,
>(signal: Seq<T>, k: int, twiddle: C, magnitude: M, value: T) -> bool {
    exists|points: Seq<(T, T)>, re_terms: Seq<T>, im_terms: Seq<T>, re: Seq<T>, im: Seq<T>|
        is_bin_by(signal, k, twiddle, magnitude, points, re_terms, im_terms, re, im, value)
}

/// What `(k * t) % n` becomes when `t` goes up by one: `k` further on, less `n` where that
/// passes it.
proof fn lemma_next_angle(k: int, t: int, n: int)
    requires
        0 <= k < n,
        0 <= t,
    ensures
        (k * (t + 1)) % n == if (k * t) % n + k >= n {
            (k * t) % n + k - n
        } else {
            (k * t) % n + k
        },
{
    let angle = (k * t) % n;
    assert(k * (t + 1) == k * t + k) by (nonlinear_arith);
    lemma_add_mod_noop_right(k, k * t, n);
    assert((k + angle) % n == (k + k * t) % n);
    if angle + k >= n {
        lemma_mod_add_multiples_vanish(angle + k - n, n);
        lemma_small_mod((angle + k - n) as nat, n as nat);
    } else {
        lemma_small_mod((angle + k) as nat, n as nat);
    }
}

/// Bin `k` of the magnitude spectrum.
fn bin_at<
    T: Copy + Default + Add<Output = T> + Sub<Output = T> + Mul<Output = T>,
    C: Fn(usize, usize) -> (T, T),
    M: Fn(T, T) -> T,
>(signal: &[T], k: usize, twiddle: &C, magnitude: &M) -> (value: T)
    requires
        k < signal.len(),
        always_adds::<T>(),
        always_subtracts::<T>(),
        always_multiplies::<T>(),
        forall|j: usize| j < signal.len() ==> #[trigger] call_requires(*twiddle, (j, signal.len())),
        forall|re: T, im: T| #[trigger] call_requires(*magnitude, (re, im)),
    ensures
        is_bin(signal@, k as int, *twiddle, *magnitude, value),
{
    let n = signal.len();
    let mut re_sum = T::default();
    let mut im_sum = T::default();
    let mut angle: usize = 0;
    let ghost mut points: Seq<(T, T)> = Seq::empty();
    let ghost mut re_terms: Seq<T> = Seq::empty();
    let ghost mut im_terms: Seq<T> = Seq::empty();
    let ghost mut re: Seq<T> = seq![re_sum];
    let ghost mut im: Seq<T> = seq![im_sum];
    let mut t: usize = 0;
    assert((k * 0) % (n as int) == 0) by {
        assert(k * 0 == 0);
        lemma_small_mod(0, n as nat);
    }
    while t < n
        invariant
            n == signal.len(),
            k < n,
            always_adds::<T>(),
            always_subtracts::<T>(),
            always_multiplies::<T>(),
            forall|j: usize| j < n ==> #[trigger] call_requires(*twiddle, (j, n)),
            t <= n,
            angle < n,
            angle == (k * t) % (n as int),
            points.len() == t,
            re_terms.len() == t,
            im_terms.len() == t,
            re.len() == t + 1,
            im.len() == t + 1,
            is_silence(re[0]),
            is_silence(im[0]),
            forall|u: int|
                0 <= u < t ==> {
                    &&& call_ensures(
                        *twiddle,
                        (((k * u) % (n as int)) as usize, n),
                        #[trigger] points[u],
                    )
                    &&& multiplies_to(signal@[u], points[u].0, re_terms[u])
                    &&& multiplies_to(signal@[u], points[u].1, im_terms[u])
                    &&& adds_to(re[u], re_terms[u], re[u + 1])
                    &&& subtracts_to(im[u], im_terms[u], im[u + 1])
                },
            re_sum == re[t as int],
            im_sum == im[t as int],
        decreases n - t,
    {
        let x = signal[t];
        let point = twiddle(angle, n);
        assert(call_requires(T::mul, (x, point.0)));
        let re_term = x * point.0;
        assert(call_requires(T::mul, (x, point.1)));
        let im_term = x * point.1;
        assert(call_requires(T::add, (re_sum, re_term)));
        re_sum = re_sum + re_term;
        assert(call_requires(T::sub, (im_sum, im_term)));
        im_sum = im_sum - im_term;
        proof {
            let points_before = points;
            let re_terms_before = re_terms;
            let im_terms_before = im_terms;
            let re_before = re;
            let im_before = im;
            points = points.push(point);
            re_terms = re_terms.push(re_term);
            im_terms = im_terms.push(im_term);
            re = re.push(re_sum);
            im = im.push(im_sum);
            assert forall|u: int| 0 <= u < t + 1 implies {
                &&& call_ensures(
                    *twiddle,
                    (((k * u) % (n as int)) as usize, n),
                    #[trigger] points[u],
                )
                &&& multiplies_to(signal@[u], points[u].0, re_terms[u])
                &&& multiplies_to(signal@[u], points[u].1, im_terms[u])
                &&& adds_to(re[u], re_terms[u], re[u + 1])
                &&& subtracts_to(im[u], im_terms[u], im[u + 1])
            } by {
                if u < t {
                    assert(points[u] == points_before[u]);
                    assert(re_terms[u] == re_terms_before[u]);
                    assert(im_terms[u] == im_terms_before[u]);
                    assert(re[u] == re_before[u] && re[u + 1] == re_before[u + 1]);
                    assert(im[u] == im_before[u] && im[u + 1] == im_before[u + 1]);
                } else {
                    assert(points[u] == point);
                    assert(re[u] == re_before[u] && im[u] == im_before[u]);
                }
            }
            lemma_next_angle(k as int, t as int, n as int);
        }
        angle = if angle >= n - k {
            angle - (n - k)
        } else {
            angle + k
        };
        t += 1;
    }
    let value = magnitude(re_sum, im_sum);
    assert(is_bin_by(
        signal@,
        k as int,
        *twiddle,
        *magnitude,
        points,
        re_terms,
        im_terms,
        re,
        im,
        value,
    ));
    value
}

/// The magnitude spectrum of a signal: its discrete Fourier transform, taken of the samples as
/// they are, with no window, and for each of the bins, as many as there are samples, the
/// magnitude of the coefficient.
///
/// `twiddle(j, n)` gives the point of the unit circle at `j` parts in `n` of a turn, as its
/// cosine and its sine; `magnitude(re, im)` gives the length of the vector `(re, im)`.
pub fn fourier_transform<
    T: Copy + Default + Add<Output = T> + Sub<Output = T> + Mul<Output = T>,
    C: Fn(usize, usize) -> (T, T),
    M: Fn(T, T) -> T,
>(signal: &[T], twiddle: C, magnitude: M) -> (out: Vec<T>)
    requires
        always_adds::<T>(),
        always_subtracts::<T>(),
        always_multiplies::<T>(),
        forall|j: usize| j < signal.len() ==> #[trigger] call_requires(twiddle, (j, signal.len())),
        forall|re: T, im: T| #[trigger] call_requires(magnitude, (re, im)),
    ensures
        out.len() == signal.len(),
        forall|k: int|
            0 <= k < signal.len() ==> is_bin(signal@, k, twiddle, magnitude, #[trigger] out@[k]),
{
    let mut out: Vec<T> = Vec::new();
    let mut k: usize = 0;
    while k < signal.len()
        invariant
            always_adds::<T>(),
            always_subtracts::<T>(),
            always_multiplies::<T>(),
            forall|j: usize|
                j < signal.len() ==> #[trigger] call_requires(twiddle, (j, signal.len())),
            forall|re: T, im: T| #[trigger] call_requires(magnitude, (re, im)),
            k <= signal.len(),
            out.len() == k,
            forall|b: int|
                0 <= b < k ==> is_bin(signal@, b, twiddle, magnitude, #[trigger] out@[b]),
        decreases signal.len() - k,
    {
        out.push(bin_at(signal, k, &twiddle, &magnitude));
        k += 1;
    }
    out
}

} // verus!
