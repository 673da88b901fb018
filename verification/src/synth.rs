//! The oscillator: a voltage-controlled-oscillator abstraction that produces
//! the phase of each sample of a periodic waveform.
//!
//! The sample at index i of a sine oscillator is
//! sin(2π · fract(i · frequency / rate)) · amplitude. For a whole-hertz
//! frequency the fractional part of i · frequency / rate is exactly
//! (i · frequency mod rate) / rate, so this module computes those phase
//! numerators; evaluating the sine itself is left to the host, which owns
//! the floating-point edge.

use vstd::prelude::*;
use vstd::arithmetic::div_mod::{
    lemma_add_mod_noop_right, lemma_mod_bound, lemma_mod_multiples_basic, lemma_small_mod,
};
use vstd::arithmetic::mul::{lemma_mul_basics, lemma_mul_is_distributive_add_other_way};

verus! {

/// The waveform kinds an oscillator can produce; only a sine exists in this
/// version.
#[derive(Debug, Copy, Clone, PartialEq, Eq, Structural)]
pub enum VcoWaveform {
    Sine,
}

/// A voltage-controlled oscillator: waveform kind, frequency in whole hertz,
/// and amplitude in thousandths of full scale (500 is one half). Both the
/// frequency and the sample rate handed to `generate_phases` must be
/// positive; the phase sequence is a pure function of them and of the count.
#[derive(Debug, Copy, Clone, PartialEq, Eq, Structural)]
pub struct Vco {
    pub waveform: VcoWaveform,
    pub frequency: u32,
    pub amplitude_milli: u32,
}

/// The oscillator phase at sample index i, as a numerator over `rate`:
/// fract(i · freq / rate) equals phase_at(freq, rate, i) / rate.
pub open spec fn phase_at(freq: int, rate: int, i: int) -> int {
    (i * freq) % rate
}

/// True when s holds, index by index, the oscillator phases for freq and
/// rate.
pub open spec fn is_phase_seq(s: Seq<u32>, freq: int, rate: int) -> bool {
    forall|i: int| 0 <= i < s.len() ==> s[i] == phase_at(freq, rate, i)
}

impl Vco {
    /// Produce the phase numerator of each of the first n samples: the value
    /// at index i is (i · frequency) mod sample_rate, always below the rate.
    /// The phase is computed from the index alone, not by unbounded
    /// accumulation, so regenerating any prefix is deterministic.
    pub fn generate_phases(&self, n: usize, sample_rate: u32) -> (r: Vec<u32>)
        requires
            self.frequency > 0,
            sample_rate > 0,
        ensures
            r@.len() == n,
            is_phase_seq(r@, self.frequency as int, sample_rate as int),
            forall|i: int| 0 <= i < n ==> r@[i] < sample_rate,
    {
        let ghost freq = self.frequency as int;
        let ghost rate = sample_rate as int;
        let mut out: Vec<u32> = Vec::new();
        let mut acc: u32 = 0;
        let mut i: usize = 0;
        proof {
            lemma_mul_basics(freq);
            lemma_small_mod(0nat, rate as nat);
        }
        while i < n
            invariant
                i <= n,
                out@.len() == i,
                sample_rate > 0,
                freq == self.frequency as int,
                rate == sample_rate as int,
                acc == phase_at(freq, rate, i as int),
                acc < sample_rate,
                is_phase_seq(out@, freq, rate),
                forall|j: int| 0 <= j < i ==> out@[j] < sample_rate,
            decreases n - i,
        {
            out.push(acc);
            let next64: u64 = (acc as u64 + self.frequency as u64) % (sample_rate as u64);
            proof {
                lemma_add_mod_noop_right(freq, i as int * freq, rate);
                lemma_mul_is_distributive_add_other_way(freq, 1, i as int);
                lemma_mul_basics(freq);
                assert(next64 as int == (freq + phase_at(freq, rate, i as int)) % rate);
                assert((1 + i as int) * freq == freq + i as int * freq);
                assert(next64 as int == phase_at(freq, rate, i as int + 1));
                lemma_mod_bound(freq + i as int * freq, rate);
            }
            acc = next64 as u32;
            i = i + 1;
        }
        out
    }
}

/// Law: the phase sequence is a function of frequency, rate and count alone.
/// Two sequences of the same length that both hold the phases for the same
/// frequency and rate are equal, element for element — there is no hidden
/// accumulating state to diverge on.
pub proof fn lemma_phases_deterministic(a: Seq<u32>, b: Seq<u32>, freq: int, rate: int)
    requires
        a.len() == b.len(),
        is_phase_seq(a, freq, rate),
        is_phase_seq(b, freq, rate),
    ensures
        a == b,
{
    assert(a =~= b);
}

/// Law: the phase sequence is periodic. Whenever k · freq is a whole
/// multiple of the rate — k samples span a whole number of waveform cycles —
/// the phase at index i + k equals the phase at index i.
pub proof fn lemma_phase_periodic(freq: int, rate: int, i: int, k: int)
    requires
        rate > 0,
        (k * freq) % rate == 0,
    ensures
        phase_at(freq, rate, i + k) == phase_at(freq, rate, i),
{
    lemma_mul_is_distributive_add_other_way(freq, i, k);
    assert((i + k) * freq == i * freq + k * freq);
    lemma_add_mod_noop_right(i * freq, k * freq, rate);
    assert((i * freq + 0) % rate == (i * freq + k * freq) % rate);
}

/// Law: when the frequency equals the sample rate, the period is a single
/// sample and every phase is zero — every sample sits at sin(0).
pub proof fn lemma_phase_zero_at_rate(freq: int, rate: int, i: int)
    requires
        rate > 0,
        freq == rate,
    ensures
        phase_at(freq, rate, i) == 0,
{
    lemma_mod_multiples_basic(i, rate);
}

} // verus!
