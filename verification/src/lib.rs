//! A small signal-processing toolkit: wave synthesis, buffers, a delay effect, and spectral and
//! temporal analysis of sampled signals.
//!
//! The crate is generic in the sample type `T`. Its functions decide how many samples there are,
//! which operands meet in which order, and where each result goes; the arithmetic on samples is
//! the sample type's own (see the module `sample`).

use vstd::prelude::*;

pub mod buffer;
pub mod effects;
pub mod midi;
pub mod oscillators;
pub mod sample;
pub mod spectral;

use crate::buffer::AudioBuffer;
use crate::effects::{is_delayed, AudioEffect};
use crate::oscillators::{
    lemma_new_oscillator_produces_the_wave_from_zero, named_shape, Oscillator, OscillatorError,
    OscillatorType,
};

verus! {

/// Sample rate, in Hz, used wherever none is given.
pub const DEFAULT_SAMPLE_RATE: u32 = 44100;

/// The first `size` samples of the wave that `oscillator_type_str` names, at `frequency` and at
/// `DEFAULT_SAMPLE_RATE`, worked out by `wave`. A token that names no wave shape is an error.
pub fn netsblox_oscillator<T: Copy, W: Fn(OscillatorType, T, u32, usize) -> T>(
    oscillator_type_str: &str,
    frequency: T,
    size: usize,
    wave: W,
) -> (samples: Result<Vec<T>, OscillatorError>)
    requires
        named_shape(oscillator_type_str@) matches Some(shape) ==> forall|n: usize|
            n < size ==> #[trigger] call_requires(wave, (shape, frequency, DEFAULT_SAMPLE_RATE, n)),
    ensures
        match named_shape(oscillator_type_str@) {
            Some(shape) => samples matches Ok(produced) && produced.len() == size && forall|
                n: usize,
            |
                n < size ==> call_ensures(
                    wave,
                    (shape, frequency, DEFAULT_SAMPLE_RATE, n),
                    #[trigger] produced[n as int],
                ),
            None => samples == Err::<Vec<T>, OscillatorError>(OscillatorError::InvalidWaveformKind),
        },
{
    match OscillatorType::parse(oscillator_type_str) {
        Ok(oscillator_type) => {
            let mut oscillator = Oscillator::new(oscillator_type, frequency, None, wave);
            let ghost fresh = oscillator;
            assert forall|n: nat| 0 <= n < size implies #[trigger] oscillator.ready(n) by {
                assert(call_requires(
                    wave,
                    (oscillator_type, frequency, DEFAULT_SAMPLE_RATE, n as usize),
                ));
            }
            let produced = oscillator.take(size);
            proof {
                lemma_new_oscillator_produces_the_wave_from_zero(
                    fresh,
                    oscillator_type,
                    frequency,
                    DEFAULT_SAMPLE_RATE,
                    wave,
                    produced@,
                );
            }
            Ok(produced)
        },
        Err(error) => Err(error),
    }
}

/// `signal` delayed by `zero_pad_size` samples: that many silent samples, then the signal.
pub fn netsblox_delay<T: Copy + Default>(signal: &[T], zero_pad_size: usize) -> (delayed: Vec<T>)
    ensures
        is_delayed(signal@, zero_pad_size as nat, delayed@),
{
    let mut buffer = AudioBuffer::from_raw(signal, None);
    AudioEffect::delay(&mut buffer, zero_pad_size);
    buffer.src
}

} // verus!
