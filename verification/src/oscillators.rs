//! Oscillators: lazy sources of the samples of a wave.

use vstd::prelude::*;
use vstd::string::*;
use vstd::utf8::*;
use crate::DEFAULT_SAMPLE_RATE;

verus! {

/// The shape of the wave that an oscillator produces.
#[derive(Clone, Copy, Debug, PartialEq, Eq, Structural)]
pub enum OscillatorType {
    Sine,
    Square,
    Triangle,
    Sawtooth,
}

/// Why an oscillator could not be described.
#[derive(Clone, Copy, Debug, PartialEq, Eq, Structural)]
pub enum OscillatorError {
    /// The token names none of the four wave shapes.
    InvalidWaveformKind,
}

/// The wave shape that a token names, if it names one. Tokens are matched exactly and with
/// regard to case.
pub open spec fn named_shape(token: Seq<char>) -> Option<OscillatorType> {
    if token == "sine"@ {
        Some(OscillatorType::Sine)
    } else if token == "square"@ {
        Some(OscillatorType::Square)
    } else if token == "sawtooth"@ {
        Some(OscillatorType::Sawtooth)
    } else if token == "triangle"@ {
        Some(OscillatorType::Triangle)
    } else {
        None
    }
}

/// Two strings hold the same characters exactly when they hold the same bytes.
proof fn lemma_same_bytes_same_chars(a: &str, b: &str)
    ensures
        (a.spec_bytes() == b.spec_bytes()) <==> (a@ == b@),
{
    encode_utf8_decode_utf8(a@);
    encode_utf8_decode_utf8(b@);
}

/// Whether two strings hold the same characters.
fn same_text(a: &str, b: &str) -> (same: bool)
    ensures
        same <==> a@ == b@,
{
    let x = a.as_bytes();
    let y = b.as_bytes();
    proof {
        lemma_same_bytes_same_chars(a, b);
    }
    if x.len() != y.len() {
        return false;
    }
    let mut i: usize = 0;
    while i < x.len()
        invariant
            x@ == a.spec_bytes(),
            y@ == b.spec_bytes(),
            (a.spec_bytes() == b.spec_bytes()) <==> (a@ == b@),
            x.len() == y.len(),
            i <= x.len(),
            forall|j: int| 0 <= j < i ==> x@[j] == y@[j],
        decreases x.len() - i,
    {
        if x[i] != y[i] {
            return false;
        }
        i += 1;
    }
    assert(x@ =~= y@);
    true
}

impl OscillatorType {
    /// Reads a wave shape from its token: `sine`, `square`, `sawtooth` or `triangle`.
    pub fn parse(token: &str) -> (shape: Result<OscillatorType, OscillatorError>)
        ensures
            match named_shape(token@) {
                Some(named) => shape == Ok::<OscillatorType, OscillatorError>(named),
                None => shape == Err::<OscillatorType, OscillatorError>(
                    OscillatorError::InvalidWaveformKind,
                ),
            },
    {
        if same_text(token, "sine") {
            Ok(OscillatorType::Sine)
        } else if same_text(token, "square") {
            Ok(OscillatorType::Square)
        } else if same_text(token, "sawtooth") {
            Ok(OscillatorType::Sawtooth)
        } else if same_text(token, "triangle") {
            Ok(OscillatorType::Triangle)
        } else {
            Err(OscillatorError::InvalidWaveformKind)
        }
    }
}

/// A lazy, endless source of samples of one wave shape.
///
/// The oscillator keeps the position of the next sample. The value at a position is worked out
/// by `wave`, the evaluator it was made with, from the shape, the frequency, the sample rate
/// and the position: the oscillator itself does no arithmetic on samples.
pub struct Oscillator<T, W> {
    pub oscillator_type: OscillatorType,
    pub frequency: T,
    pub sample_rate: u32,
    wave: W,
    curr: usize,
}

impl<T: Copy, W: Fn(OscillatorType, T, u32, usize) -> T> Oscillator<T, W> {
    /// The position of the next sample.
    pub closed spec fn index(&self) -> nat {
        self.curr as nat
    }

    /// The evaluator that turns a position into a sample.
    pub closed spec fn wave(&self) -> W {
        self.wave
    }

    /// The wave shape, as the field `oscillator_type` holds it.
    pub closed spec fn spec_shape(&self) -> OscillatorType {
        self.oscillator_type
    }

    /// The frequency in Hz, as the field `frequency` holds it.
    pub closed spec fn spec_pitch(&self) -> T {
        self.frequency
    }

    /// The sample rate in Hz, as the field `sample_rate` holds it.
    pub closed spec fn spec_rate(&self) -> u32 {
        self.sample_rate
    }

    /// The wave shape.
    #[verifier::when_used_as_spec(spec_shape)]
    pub fn shape(&self) -> (shape: OscillatorType)
        ensures
            shape == self.shape(),
    {
        self.oscillator_type
    }

    /// The frequency in Hz.
    #[verifier::when_used_as_spec(spec_pitch)]
    pub fn pitch(&self) -> (pitch: T)
        ensures
            pitch == self.pitch(),
    {
        self.frequency
    }

    /// The sample rate in Hz.
    #[verifier::when_used_as_spec(spec_rate)]
    pub fn rate(&self) -> (rate: u32)
        ensures
            rate == self.rate(),
    {
        self.sample_rate
    }

    /// The position of the next sample.
    pub fn position(&self) -> (position: usize)
        ensures
            position == self.index(),
    {
        self.curr
    }

    /// The evaluator accepts position `n` of this oscillator.
    pub open spec fn ready(&self, n: nat) -> bool {
        n <= usize::MAX && call_requires(
            self.wave(),
            (self.shape(), self.pitch(), self.rate(), n as usize),
        )
    }

    /// `value` is a sample that the evaluator may give for position `n` of this oscillator.
    pub open spec fn yields(&self, n: nat, value: T) -> bool {
        n <= usize::MAX && call_ensures(
            self.wave(),
            (self.shape(), self.pitch(), self.rate(), n as usize),
            value,
        )
    }

    /// The oscillator `steps` samples further on: the same shape, frequency, sample rate and
    /// evaluator, at a later position.
    pub open spec fn advanced(&self, steps: nat, later: &Self) -> bool {
        &&& later.shape() == self.shape()
        &&& later.pitch() == self.pitch()
        &&& later.rate() == self.rate()
        &&& later.wave() == self.wave()
        &&& later.index() == self.index() + steps
    }

    /// The evaluator accepts the next `count` positions of this oscillator.
    pub open spec fn ready_for(&self, count: nat) -> bool {
        forall|n: nat| self.index() <= n < self.index() + count ==> #[trigger] self.ready(n)
    }

    /// `samples` are samples that the oscillator may produce from its position on, in order:
    /// `samples[i]` is a sample for the position `i` after the current one.
    pub open spec fn produces(&self, samples: Seq<T>) -> bool {
        forall|i: int|
            0 <= i < samples.len() ==> self.yields(
                (self.index() + i) as nat,
                #[trigger] samples[i],
            )
    }

    /// An oscillator at position 0. Without a sample rate it runs at `DEFAULT_SAMPLE_RATE`.
    pub fn new(
        oscillator_type: OscillatorType,
        frequency: T,
        sample_rate: Option<u32>,
        wave: W,
    ) -> (oscillator: Self)
        ensures
            oscillator.shape() == oscillator_type,
            oscillator.pitch() == frequency,
            oscillator.rate() == match sample_rate {
                Some(rate) => rate,
                None => DEFAULT_SAMPLE_RATE,
            },
            oscillator.wave() == wave,
            oscillator.index() == 0,
    {
        let sample_rate = match sample_rate {
            Some(rate) => rate,
            None => DEFAULT_SAMPLE_RATE,
        };
        Oscillator { oscillator_type, frequency, sample_rate, wave, curr: 0 }
    }

    /// Produces the sample at the current position and moves one position on. There is always
    /// a next sample: the oscillator never ends.
    pub fn next(&mut self) -> (sample: Option<T>)
        requires
            old(self).index() < usize::MAX,
            old(self).ready(old(self).index()),
        ensures
            sample matches Some(value) && old(self).yields(old(self).index(), value),
            old(self).advanced(1, final(self)),
    {
        let value = (self.wave)(self.oscillator_type, self.frequency, self.sample_rate, self.curr);
        self.curr += 1;
        Some(value)
    }

    /// Produces the next `count` samples, in order.
    pub fn take(&mut self, count: usize) -> (samples: Vec<T>)
        requires
            old(self).index() + count <= usize::MAX,
            old(self).ready_for(count as nat),
        ensures
            samples.len() == count,
            old(self).produces(samples@),
            old(self).advanced(count as nat, final(self)),
    {
        let mut samples: Vec<T> = Vec::new();
        let mut taken: usize = 0;
        while taken < count
            invariant
                taken <= count,
                old(self).index() + count <= usize::MAX,
                old(self).ready_for(count as nat),
                samples.len() == taken,
                old(self).produces(samples@),
                old(self).advanced(taken as nat, self),
            decreases count - taken,
        {
            assert(old(self).ready(self.index()));
            let value = (self.wave)(
                self.oscillator_type,
                self.frequency,
                self.sample_rate,
                self.curr,
            );
            self.curr += 1;
            samples.push(value);
            taken += 1;
        }
        samples
    }
}

/// The first samples of a new oscillator are the values of its wave at the positions from 0
/// on: sample `i` is what the evaluator gave for the shape, the frequency, the sample rate and
/// `i`.
pub proof fn lemma_new_oscillator_produces_the_wave_from_zero<
    T: Copy,
    W: Fn(OscillatorType, T, u32, usize) -> T,
>(
    oscillator: Oscillator<T, W>,
    oscillator_type: OscillatorType,
    frequency: T,
    sample_rate: u32,
    wave: W,
    samples: Seq<T>,
)
    requires
        oscillator.shape() == oscillator_type,
        oscillator.pitch() == frequency,
        oscillator.rate() == sample_rate,
        oscillator.wave() == wave,
        oscillator.index() == 0,
        oscillator.produces(samples),
    ensures
        forall|n: usize|
            n < samples.len() ==> call_ensures(
                wave,
                (oscillator_type, frequency, sample_rate, n),
                #[trigger] samples[n as int],
            ),
{
    assert forall|n: usize| n < samples.len() implies call_ensures(
        wave,
        (oscillator_type, frequency, sample_rate, n),
        #[trigger] samples[n as int],
    ) by {
        assert(oscillator.yields((oscillator.index() + n) as nat, samples[n as int]));
    }
}

/// Producing samples is repeatable: two oscillators of the same shape, frequency, sample rate
/// and evaluator, at the same position, produce the same samples, where the evaluator gives
/// one value for a position.
pub proof fn lemma_equal_oscillators_produce_equal_samples<
    T: Copy,
    W: Fn(OscillatorType, T, u32, usize) -> T,
>(first: Oscillator<T, W>, second: Oscillator<T, W>, a: Seq<T>, b: Seq<T>)
    requires
        first.advanced(0, &second),
        a.len() == b.len(),
        first.produces(a),
        second.produces(b),
        forall|n: nat, x: T, y: T|
            #![trigger first.yields(n, x), first.yields(n, y)]
            first.yields(n, x) && first.yields(n, y) ==> x == y,
    ensures
        a == b,
{
    assert forall|i: int| 0 <= i < a.len() implies a[i] == b[i] by {
        let n = (first.index() + i) as nat;
        assert(first.yields(n, a[i]));
        assert(second.yields(n, b[i]));
        assert(first.yields(n, b[i]));
    }
    assert(a =~= b);
}

} // verus!
