//! Buffers: finite signals with their sample rate.

use vstd::prelude::*;
use vstd::slice::slice_to_vec;
use crate::oscillators::{Oscillator, OscillatorType};
use crate::DEFAULT_SAMPLE_RATE;

verus! {

/// A finite signal together with the rate at which it was sampled.
pub struct AudioBuffer<T> {
    pub sample_rate: u32,
    pub src: Vec<T>,
}

impl<T: Copy> AudioBuffer<T> {
    /// Materializes `duration` seconds of an oscillator: `duration * sample_rate` samples, taken
    /// from the oscillator's position on, at the oscillator's sample rate.
    pub fn from_oscillator<W: Fn(OscillatorType, T, u32, usize) -> T>(
        oscillator: Oscillator<T, W>,
        duration: usize,
    ) -> (buffer: Self)
        requires
            oscillator.index() + duration * oscillator.rate() <= usize::MAX,
            oscillator.ready_for((duration * oscillator.rate()) as nat),
        ensures
            buffer.sample_rate == oscillator.rate(),
            buffer.src.len() == duration * oscillator.rate(),
            oscillator.produces(buffer.src@),
    {
        let mut oscillator = oscillator;
        let sample_rate = oscillator.rate();
        let src = oscillator.take(duration * (sample_rate as usize));
        AudioBuffer { sample_rate, src }
    }

    /// Takes over `samples` as they are. Without a sample rate the buffer is at
    /// `DEFAULT_SAMPLE_RATE`.
    pub fn from_raw(samples: &[T], sample_rate: Option<u32>) -> (buffer: Self)
        ensures
            buffer.sample_rate == match sample_rate {
                Some(rate) => rate,
                None => DEFAULT_SAMPLE_RATE,
            },
            buffer.src@ == samples@,
    {
        let sample_rate = match sample_rate {
            Some(rate) => rate,
            None => DEFAULT_SAMPLE_RATE,
        };
        AudioBuffer { sample_rate, src: slice_to_vec(samples) }
    }
}

} // verus!
