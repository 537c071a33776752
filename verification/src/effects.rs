//! Effects: transforms of a whole buffer.

use vstd::prelude::*;
use crate::buffer::AudioBuffer;
use crate::sample::is_silence;

verus! {

/// `after` is `before` delayed by `pad` samples: `pad` silent samples, then the samples of
/// `before`, unchanged and in order.
pub open spec fn is_delayed<T: Default>(before: Seq<T>, pad: nat, after: Seq<T>) -> bool {
    &&& after.len() == before.len() + pad
    &&& forall|i: int| 0 <= i < pad ==> is_silence(#[trigger] after[i])
    &&& after.skip(pad as int) == before
}

/// Transforms of a whole buffer.
pub struct AudioEffect {}

impl AudioEffect {
    /// Delays the signal by `zero_pad_size` samples: that many silent samples are put before
    /// the samples of the buffer, which follow unchanged. The sample rate stays.
    ///
    /// A delay of `t` seconds is `ceil(|t| * sample_rate)` samples.
    pub fn delay<T: Default>(buffer: &mut AudioBuffer<T>, zero_pad_size: usize)
        ensures
            final(buffer).sample_rate == old(buffer).sample_rate,
            is_delayed(old(buffer).src@, zero_pad_size as nat, final(buffer).src@),
    {
        let mut zero_pad: Vec<T> = Vec::new();
        let mut i: usize = 0;
        while i < zero_pad_size
            invariant
                i <= zero_pad_size,
                zero_pad.len() == i,
                forall|j: int| 0 <= j < i ==> is_silence(#[trigger] zero_pad[j]),
            decreases zero_pad_size - i,
        {
            zero_pad.push(T::default());
            i += 1;
        }
        zero_pad.append(&mut buffer.src);
        buffer.src = zero_pad;
        assert(buffer.src@.skip(zero_pad_size as int) =~= old(buffer).src@);
    }
}

/// A delay makes a signal longer by the number of samples of the delay, and the signal is
/// found again, unchanged, at the end of the result.
pub proof fn lemma_delay_keeps_the_signal_at_the_tail<T: Default>(
    before: Seq<T>,
    pad: nat,
    after: Seq<T>,
)
    requires
        is_delayed(before, pad, after),
    ensures
        after.len() == before.len() + pad,
        after.subrange(pad as int, after.len() as int) == before,
        forall|i: int| 0 <= i < before.len() ==> after[pad + i] == #[trigger] before[i],
{
    assert forall|i: int| 0 <= i < before.len() implies after[pad + i] == #[trigger] before[i] by {
        assert(after.skip(pad as int)[i] == before[i]);
    }
}

/// A delay by no samples changes nothing.
pub proof fn lemma_delay_by_nothing_changes_nothing<T: Default>(before: Seq<T>, after: Seq<T>)
    requires
        is_delayed(before, 0, after),
    ensures
        after == before,
{
    assert(after.skip(0) =~= after);
}

/// Delays add up: a delay by `first` samples and then by `second` samples is a delay by
/// `first + second` samples.
pub proof fn lemma_delays_add_up<T: Default>(
    before: Seq<T>,
    first: nat,
    between: Seq<T>,
    second: nat,
    after: Seq<T>,
)
    requires
        is_delayed(before, first, between),
        is_delayed(between, second, after),
    ensures
        is_delayed(before, first + second, after),
{
    assert forall|i: int| 0 <= i < first + second implies is_silence(#[trigger] after[i]) by {
        if i >= second {
            assert(after.skip(second as int)[i - second] == between[i - second]);
        }
    }
    assert(after.skip((first + second) as int) =~= after.skip(second as int).skip(first as int));
}

} // verus!
