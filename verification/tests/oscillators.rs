use netsblox_dsp::oscillators::{Oscillator, OscillatorError, OscillatorType};
use netsblox_dsp::{netsblox_oscillator, DEFAULT_SAMPLE_RATE};
use num_traits::sign::signum;
use std::f32::consts::{FRAC_PI_2, PI};

fn sine(x: f32) -> f32 {
    (2.0 * PI * x).sin()
}

/// The sign of a value: `1.0` above zero, `-1.0` below it, and zero at zero.
fn sign(value: f32) -> f32 {
    if value == 0.0 {
        0.0
    } else {
        signum(value)
    }
}

fn square(x: f32) -> f32 {
    sign((2.0 * PI * x).sin())
}

fn triangle(x: f32) -> f32 {
    FRAC_PI_2 * (2.0 * PI * x).sin().asin()
}

fn sawtooth(x: f32) -> f32 {
    2.0 * (x - (0.5 + x).floor())
}

/// The sample of a wave at a position: its shape at the phase
/// `frequency * index / sample_rate`.
fn wave(oscillator_type: OscillatorType, frequency: f32, sample_rate: u32, index: usize) -> f32 {
    let x: f32 = frequency * index as f32 / sample_rate as f32;
    match oscillator_type {
        OscillatorType::Sine => (2.0 * PI * x).sin(),
        OscillatorType::Square => sign((2.0 * PI * x).sin()),
        OscillatorType::Triangle => FRAC_PI_2 * (2.0 * PI * x).sin().asin(),
        OscillatorType::Sawtooth => 2.0 * (x - (0.5 + x).floor()),
    }
}

/// Two values are equal to within a millionth.
fn assert_approx_eq(b: f32, c: f32) {
    assert!((b - c).abs() < 1.0e-6, "{} is not close to {}", b, c);
}

#[test]
fn sine_1() {
    let freq = 1.0;
    let sample_rate = 2000;
    let mut oscillator = Oscillator::new(OscillatorType::Sine, freq, Some(sample_rate), wave);
    let buffer = oscillator.take(100);
    let control = (0..100)
        .map(|i| sine(freq * i as f32 / sample_rate as f32))
        .collect::<Vec<f32>>();
    assert_eq!(buffer.len(), control.len());
    buffer
        .into_iter()
        .zip(control.into_iter())
        .for_each(|(b, c)| assert_approx_eq(b, c));
}

#[test]
fn sine_440() {
    let freq = 440.0;
    let sample_rate = 100;
    let mut oscillator = Oscillator::new(OscillatorType::Sine, freq, Some(sample_rate), wave);
    let buffer = oscillator.take(100);
    let control = (0..100)
        .map(|i| sine(freq * i as f32 / sample_rate as f32))
        .collect::<Vec<f32>>();
    assert_eq!(buffer.len(), control.len());
    buffer
        .into_iter()
        .zip(control.into_iter())
        .for_each(|(b, c)| assert_approx_eq(b, c));
}

#[test]
fn sine_660() {
    let freq = 660.0;
    let sample_rate = 1000;
    let mut oscillator = Oscillator::new(OscillatorType::Sine, freq, Some(sample_rate), wave);
    let buffer = oscillator.take(100);
    let control = (0..100)
        .map(|i| sine(freq * i as f32 / sample_rate as f32))
        .collect::<Vec<f32>>();
    assert_eq!(buffer.len(), control.len());
    buffer
        .into_iter()
        .zip(control.into_iter())
        .for_each(|(b, c)| assert_approx_eq(b, c));
}

#[test]
fn square_1() {
    let freq = 1.0;
    let sample_rate = 2000;
    let mut oscillator = Oscillator::new(OscillatorType::Square, freq, Some(sample_rate), wave);
    let buffer = oscillator.take(100);
    let control = (0..100)
        .map(|i| square(freq * i as f32 / sample_rate as f32))
        .collect::<Vec<f32>>();
    assert_eq!(buffer.len(), control.len());
    buffer
        .into_iter()
        .zip(control.into_iter())
        .for_each(|(b, c)| assert_approx_eq(b, c));
}

#[test]
fn square_440() {
    let freq = 440.0;
    let sample_rate = 100;
    let mut oscillator = Oscillator::new(OscillatorType::Square, freq, Some(sample_rate), wave);
    let buffer = oscillator.take(100);
    let control = (0..100)
        .map(|i| square(freq * i as f32 / sample_rate as f32))
        .collect::<Vec<f32>>();
    assert_eq!(buffer.len(), control.len());
    buffer
        .into_iter()
        .zip(control.into_iter())
        .for_each(|(b, c)| assert_approx_eq(b, c));
}

#[test]
fn square_660() {
    let freq = 660.0;
    let sample_rate = 1000;
    let mut oscillator = Oscillator::new(OscillatorType::Square, freq, Some(sample_rate), wave);
    let buffer = oscillator.take(100);
    let control = (0..100)
        .map(|i| square(freq * i as f32 / sample_rate as f32))
        .collect::<Vec<f32>>();
    assert_eq!(buffer.len(), control.len());
    buffer
        .into_iter()
        .zip(control.into_iter())
        .for_each(|(b, c)| assert_approx_eq(b, c));
}

#[test]
fn triangle_1() {
    let freq = 1.0;
    let sample_rate = 2000;
    let mut oscillator = Oscillator::new(OscillatorType::Triangle, freq, Some(sample_rate), wave);
    let buffer = oscillator.take(100);
    let control = (0..100)
        .map(|i| triangle(freq * i as f32 / sample_rate as f32))
        .collect::<Vec<f32>>();
    assert_eq!(buffer.len(), control.len());
    buffer
        .into_iter()
        .zip(control.into_iter())
        .for_each(|(b, c)| assert_approx_eq(b, c));
}

#[test]
fn triangle_440() {
    let freq = 440.0;
    let sample_rate = 100;
    let mut oscillator = Oscillator::new(OscillatorType::Triangle, freq, Some(sample_rate), wave);
    let buffer = oscillator.take(100);
    let control = (0..100)
        .map(|i| triangle(freq * i as f32 / sample_rate as f32))
        .collect::<Vec<f32>>();
    assert_eq!(buffer.len(), control.len());
    buffer
        .into_iter()
        .zip(control.into_iter())
        .for_each(|(b, c)| assert_approx_eq(b, c));
}

#[test]
fn triangle_660() {
    let freq = 660.0;
    let sample_rate = 1000;
    let mut oscillator = Oscillator::new(OscillatorType::Triangle, freq, Some(sample_rate), wave);
    let buffer = oscillator.take(100);
    let control = (0..100)
        .map(|i| triangle(freq * i as f32 / sample_rate as f32))
        .collect::<Vec<f32>>();
    assert_eq!(buffer.len(), control.len());
    buffer
        .into_iter()
        .zip(control.into_iter())
        .for_each(|(b, c)| assert_approx_eq(b, c));
}

#[test]
fn sawtooth_1() {
    let freq = 1.0;
    let sample_rate = 2000;
    let mut oscillator = Oscillator::new(OscillatorType::Sawtooth, freq, Some(sample_rate), wave);
    let buffer = oscillator.take(100);
    let control = (0..100)
        .map(|i| sawtooth(freq * i as f32 / sample_rate as f32))
        .collect::<Vec<f32>>();
    assert_eq!(buffer.len(), control.len());
    buffer
        .into_iter()
        .zip(control.into_iter())
        .for_each(|(b, c)| assert_approx_eq(b, c));
}

#[test]
fn sawtooth_440() {
    let freq = 440.0;
    let sample_rate = 100;
    let mut oscillator = Oscillator::new(OscillatorType::Sawtooth, freq, Some(sample_rate), wave);
    let buffer = oscillator.take(100);
    let control = (0..100)
        .map(|i| sawtooth(freq * i as f32 / sample_rate as f32))
        .collect::<Vec<f32>>();
    assert_eq!(buffer.len(), control.len());
    buffer
        .into_iter()
        .zip(control.into_iter())
        .for_each(|(b, c)| assert_approx_eq(b, c));
}

#[test]
fn sawtooth_660() {
    let freq = 660.0;
    let sample_rate = 1000;
    let mut oscillator = Oscillator::new(OscillatorType::Sawtooth, freq, Some(sample_rate), wave);
    let buffer = oscillator.take(100);
    let control = (0..100)
        .map(|i| sawtooth(freq * i as f32 / sample_rate as f32))
        .collect::<Vec<f32>>();
    assert_eq!(buffer.len(), control.len());
    buffer
        .into_iter()
        .zip(control.into_iter())
        .for_each(|(b, c)| assert_approx_eq(b, c));
}

/// An evaluator that records what it was handed: shape, frequency, sample rate and position.
fn witness(
    oscillator_type: OscillatorType,
    frequency: u64,
    sample_rate: u32,
    index: usize,
) -> u64 {
    let shape = match oscillator_type {
        OscillatorType::Sine => 1,
        OscillatorType::Square => 2,
        OscillatorType::Triangle => 3,
        OscillatorType::Sawtooth => 4,
    };
    shape * 1_000_000_000 + frequency * 1_000_000 + sample_rate as u64 * 1_000 + index as u64
}

#[test]
fn new_oscillator_keeps_what_it_was_given() {
    let oscillator = Oscillator::new(OscillatorType::Triangle, 7u64, Some(48), witness);
    assert_eq!(oscillator.oscillator_type, OscillatorType::Triangle);
    assert_eq!(oscillator.frequency, 7);
    assert_eq!(oscillator.sample_rate, 48);
    assert_eq!(oscillator.shape(), OscillatorType::Triangle);
    assert_eq!(oscillator.pitch(), 7);
    assert_eq!(oscillator.rate(), 48);
}

#[test]
fn new_oscillator_without_rate_runs_at_the_default() {
    let oscillator = Oscillator::new(OscillatorType::Sine, 1u64, None, witness);
    assert_eq!(oscillator.sample_rate, 44100);
    assert_eq!(oscillator.sample_rate, DEFAULT_SAMPLE_RATE);
}

#[test]
fn next_hands_the_evaluator_the_position_and_moves_on() {
    let mut oscillator = Oscillator::new(OscillatorType::Square, 3u64, Some(5), witness);
    assert_eq!(oscillator.next(), Some(2_003_005_000));
    assert_eq!(oscillator.next(), Some(2_003_005_001));
    assert_eq!(oscillator.next(), Some(2_003_005_002));
}

#[test]
fn take_goes_on_where_next_stopped() {
    let mut oscillator = Oscillator::new(OscillatorType::Sawtooth, 0u64, Some(1), witness);
    assert_eq!(oscillator.next(), Some(4_000_001_000));
    assert_eq!(
        oscillator.take(3),
        vec![4_000_001_001, 4_000_001_002, 4_000_001_003]
    );
    assert_eq!(oscillator.take(0), Vec::<u64>::new());
    assert_eq!(oscillator.next(), Some(4_000_001_004));
}

#[test]
fn equal_oscillators_give_equal_samples() {
    let mut first = Oscillator::new(OscillatorType::Sine, 440.0, Some(44100), wave);
    let mut second = Oscillator::new(OscillatorType::Sine, 440.0, Some(44100), wave);
    assert_eq!(first.take(1000), second.take(1000));
}

#[test]
fn sine_starts_at_zero_and_peaks_after_a_quarter_period() {
    let mut oscillator = Oscillator::new(OscillatorType::Sine, 1.0, Some(4), wave);
    let samples = oscillator.take(4);
    assert_approx_eq(samples[0], 0.0);
    assert_approx_eq(samples[1], 1.0);
    assert_approx_eq(samples[2], 0.0);
    assert_approx_eq(samples[3], -1.0);
}

#[test]
fn square_is_zero_where_the_sine_is_zero() {
    let mut oscillator = Oscillator::new(OscillatorType::Square, 1.0, Some(4), wave);
    let samples = oscillator.take(2);
    assert_eq!(samples[0], 0.0);
    assert_eq!(samples[1], 1.0);
    assert_eq!(square(0.0), 0.0);
    assert_eq!(square(0.25), 1.0);
    assert_eq!(square(0.75), -1.0);
}

#[test]
fn triangle_follows_the_arc_sine_of_the_sine() {
    let mut oscillator = Oscillator::new(OscillatorType::Triangle, 1.0, Some(8), wave);
    let samples = oscillator.take(8);
    assert_eq!(samples[0], 0.0);
    assert_approx_eq(samples[1], FRAC_PI_2 * (PI / 4.0));
    assert_approx_eq(samples[2], FRAC_PI_2 * FRAC_PI_2);
    assert_approx_eq(samples[3], FRAC_PI_2 * (PI / 4.0));
    assert_approx_eq(samples[5], -FRAC_PI_2 * (PI / 4.0));
    assert_approx_eq(samples[6], -FRAC_PI_2 * FRAC_PI_2);
}

#[test]
fn sawtooth_rises_from_zero_and_wraps_at_half_a_period() {
    let mut oscillator = Oscillator::new(OscillatorType::Sawtooth, 1.0, Some(4), wave);
    assert_eq!(oscillator.take(4), vec![0.0, 0.5, -1.0, -0.5]);
}

#[test]
fn parse_reads_the_four_tokens() {
    assert_eq!(OscillatorType::parse("sine"), Ok(OscillatorType::Sine));
    assert_eq!(OscillatorType::parse("square"), Ok(OscillatorType::Square));
    assert_eq!(OscillatorType::parse("sawtooth"), Ok(OscillatorType::Sawtooth));
    assert_eq!(OscillatorType::parse("triangle"), Ok(OscillatorType::Triangle));
}

#[test]
fn parse_refuses_everything_else() {
    for token in ["", "Sine", "SINE", "sin", "sines", " sine", "sine ", "saw", "noise", "sïne"] {
        assert_eq!(
            OscillatorType::parse(token),
            Err(OscillatorError::InvalidWaveformKind),
            "{:?}",
            token
        );
    }
}

#[test]
fn netsblox_oscillator_takes_the_first_samples_at_the_default_rate() {
    let samples = netsblox_oscillator("sawtooth", 5u64, 4, witness).unwrap();
    assert_eq!(
        samples,
        vec![4_049_100_000, 4_049_100_001, 4_049_100_002, 4_049_100_003]
    );
    let sines = netsblox_oscillator("sine", 440.0, 100, wave).unwrap();
    let control = (0..100)
        .map(|i| sine(440.0 * i as f32 / 44100 as f32))
        .collect::<Vec<f32>>();
    assert_eq!(sines, control);
}

#[test]
fn netsblox_oscillator_with_no_samples_is_empty() {
    assert_eq!(netsblox_oscillator("square", 1.0, 0, wave), Ok(vec![]));
}

#[test]
fn netsblox_oscillator_reports_an_unknown_wave() {
    assert_eq!(
        netsblox_oscillator("cosine", 440.0, 10, wave),
        Err(OscillatorError::InvalidWaveformKind)
    );
}
