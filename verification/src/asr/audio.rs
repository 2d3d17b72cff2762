//! Decisions about recorded audio before it reaches a speech engine: which WAV sample
//! layouts are read and how, and how many samples a clip has once resampled to 16 kHz.
use vstd::prelude::*;

use crate::asr::engine::ASR_SAMPLE_RATE;
use crate::text::{decimal, decimal_string, push_str};

verus! {

/// How a WAV file stores its samples.
#[derive(Debug, Clone, Copy, PartialEq, Eq)]
pub enum WavSampleFormat {
    Float,
    Int,
}

/// How the samples of an accepted WAV file are read and scaled to `-1.0..=1.0`.
#[derive(Debug, Clone, Copy, PartialEq, Eq)]
pub enum SampleDecoding {
    /// 32-bit floats, taken as they are.
    Float,
    /// Integers of at most 16 bits, read as `i16` and divided by `i16::MAX`.
    Int16,
    /// Integers of 17 to 32 bits, read as `i32` and divided by `full_scale`.
    Int32 { full_scale: i64 },
}

/// `2^n`.
pub open spec fn two_pow(n: nat) -> nat
    decreases n,
{
    if n == 0 {
        1
    } else {
        2 * two_pow((n - 1) as nat)
    }
}

/// The decoding a WAV header calls for, or why the file is refused.
pub open spec fn wav_decoding_spec(
    format: WavSampleFormat,
    bits_per_sample: u16,
    channels: u16,
    sample_rate: u32,
) -> Result<SampleDecoding, Seq<char>> {
    if channels == 0 {
        Err("WAV file has zero channels"@)
    } else if sample_rate == 0 {
        Err("WAV file has zero sample rate"@)
    } else {
        match format {
            WavSampleFormat::Float => Ok(SampleDecoding::Float),
            WavSampleFormat::Int => if bits_per_sample <= 16 {
                Ok(SampleDecoding::Int16)
            } else if bits_per_sample <= 32 {
                Ok(
                    SampleDecoding::Int32 {
                        full_scale: (two_pow((bits_per_sample - 1) as nat) - 1) as i64,
                    },
                )
            } else {
                Err("Unsupported WAV format: Int "@ + decimal(bits_per_sample as nat) + " bits"@)
            },
        }
    }
}

/// `2^n` for the exponents that a sample width can need.
fn power_of_two(n: u16) -> (r: i64)
    requires
        n <= 31,
    ensures
        r == two_pow(n as nat),
        r <= 0x8000_0000,
{
    proof {
        lemma_two_pow_31();
    }
    let mut r: i64 = 1;
    let mut i: u16 = 0;
    while i < n
        invariant
            i <= n <= 31,
            r == two_pow(i as nat),
            two_pow(31) == 0x8000_0000,
        decreases n - i,
    {
        proof {
            lemma_two_pow_monotone(i as nat, 30);
        }
        r = r * 2;
        i = i + 1;
    }
    proof {
        lemma_two_pow_monotone(n as nat, 31);
    }
    r
}

proof fn lemma_two_pow_31()
    ensures
        two_pow(30) == 0x4000_0000,
        two_pow(31) == 0x8000_0000,
{
    reveal_with_fuel(two_pow, 32);
}

proof fn lemma_two_pow_monotone(a: nat, b: nat)
    requires
        a <= b,
    ensures
        two_pow(a) <= two_pow(b),
        two_pow(a) >= 1,
    decreases b,
{
    if b > a {
        lemma_two_pow_monotone(a, (b - 1) as nat);
    } else if a > 0 {
        lemma_two_pow_monotone((a - 1) as nat, (a - 1) as nat);
    }
}

/// Decides how a WAV file with this header is read: files without channels or without a
/// sample rate are refused; float samples are read as they are; integer samples of up to
/// 16 bits are read as `i16`, of up to 32 bits as `i32` scaled by `2^(bits-1) - 1`; wider
/// integers are refused.
pub fn wav_sample_decoding(
    format: WavSampleFormat,
    bits_per_sample: u16,
    channels: u16,
    sample_rate: u32,
) -> (r: Result<SampleDecoding, String>)
    ensures
        match (r, wav_decoding_spec(format, bits_per_sample, channels, sample_rate)) {
            (Ok(d), Ok(e)) => d == e,
            (Err(m), Err(e)) => m@ == e,
            _ => false,
        },
{
    if channels == 0 {
        return Err("WAV file has zero channels".to_owned());
    }
    if sample_rate == 0 {
        return Err("WAV file has zero sample rate".to_owned());
    }
    match format {
        WavSampleFormat::Float => Ok(SampleDecoding::Float),
        WavSampleFormat::Int => {
            if bits_per_sample <= 16 {
                Ok(SampleDecoding::Int16)
            } else if bits_per_sample <= 32 {
                let scale = power_of_two(bits_per_sample - 1);
                proof {
                    lemma_two_pow_monotone((bits_per_sample - 1) as nat, 31);
                }
                Ok(SampleDecoding::Int32 { full_scale: scale - 1 })
            } else {
                let mut message = "Unsupported WAV format: Int ".to_owned();
                let digits = decimal_string(bits_per_sample as u64);
                push_str(&mut message, digits.as_str());
                push_str(&mut message, " bits");
                Err(message)
            }
        },
    }
}

/// The number of samples a clip of `sample_count` samples at `source_rate` has once
/// resampled to 16 kHz: unchanged at 16 kHz or when empty, else
/// `sample_count * 16000 / source_rate`, at least one.
pub fn resampled_len(sample_count: usize, source_rate: u32) -> (r: usize)
    requires
        source_rate > 0,
        sample_count * 16000 <= u64::MAX,
        sample_count * 16000 <= usize::MAX,
    ensures
        r == if source_rate == 16000 || sample_count == 0 {
            sample_count as int
        } else if sample_count * 16000 / (source_rate as int) < 1 {
            1
        } else {
            sample_count * 16000 / (source_rate as int)
        },
{
    if source_rate == ASR_SAMPLE_RATE || sample_count == 0 {
        return sample_count;
    }
    let scaled: u64 = (sample_count as u64) * 16000 / (source_rate as u64);
    proof {
        let n: int = sample_count * 16000;
        let d: int = source_rate as int;
        assert(n / d <= n) by (nonlinear_arith)
            requires
                n >= 0,
                d > 0,
        ;
    }
    if scaled < 1 {
        1
    } else {
        scaled as usize
    }
}

} // verus!
