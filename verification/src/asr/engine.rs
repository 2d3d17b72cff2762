//! Which engine runs a model, and the files it reads.
use vstd::prelude::*;

use crate::text::{is_blank, trim};

verus! {

/// A speech-recognition engine.
#[derive(Debug, Clone, Copy, PartialEq, Eq, Structural)]
pub enum AsrEngine {
    Whisper,
    SenseVoice,
    ZipformerCtc,
}

/// A model to run: its engine and files.
#[derive(Debug, Clone)]
pub struct AsrModelRef {
    pub engine: AsrEngine,
    pub path: String,
    pub tokens_path: Option<String>,
    pub punctuation_path: Option<String>,
}

/// A request to load a model ahead of use.
#[derive(Debug, Clone)]
pub struct AsrRuntimeLoadRequest {
    pub model: AsrModelRef,
    pub threads: Option<usize>,
    pub use_gpu: Option<bool>,
    pub force_cpu: Option<bool>,
    pub flash_attn: Option<bool>,
    pub gpu_device: Option<i32>,
}

/// The sample rate the on-device engines take.
pub const ASR_SAMPLE_RATE: u32 = 16000;

/// The threads handed to an on-device engine: 4 unless given, at least 1, at most `i32::MAX`.
pub fn bridge_threads(threads: Option<usize>) -> (r: i32)
    ensures
        r == match threads {
            None => 4,
            Some(t) => if t < 1 {
                1
            } else if t > i32::MAX {
                i32::MAX as int
            } else {
                t as int
            },
        },
{
    match threads {
        None => 4,
        Some(t) => if t < 1 {
            1
        } else if t > 2147483647usize {
            2147483647
        } else {
            t as i32
        },
    }
}

/// A model file path that is given and not blank.
pub open spec fn given_path(path: Option<String>) -> Option<Seq<char>> {
    match path {
        Some(p) => if trim(p@).len() > 0 {
            Some(p@)
        } else {
            None
        },
        None => None,
    }
}

pub fn required_path(path: &Option<String>) -> (r: Option<String>)
    ensures
        match r {
            Some(p) => given_path(*path) == Some(p@),
            None => given_path(*path) is None,
        },
{
    match path {
        Some(p) => if is_blank(p.as_str()) {
            None
        } else {
            Some(p.clone())
        },
        None => None,
    }
}

/// The end of a transcribed clip in milliseconds, from its 16 kHz sample count.
pub fn audio_end_ms(samples: usize) -> (r: i64)
    requires
        samples * 1000 <= i64::MAX,
    ensures
        r == samples * 1000 / 16000,
{
    ((samples as u64) * 1000 / 16000) as i64
}

/// A loaded model stays loaded after a transcription unless the request says otherwise.
pub fn keeps_model_loaded(keep_model_loaded: Option<bool>) -> (r: bool)
    ensures
        r == match keep_model_loaded {
            Some(k) => k,
            None => true,
        },
{
    match keep_model_loaded {
        Some(k) => k,
        None => true,
    }
}

/// Checks a raw PCM request: the sample rate must be positive and the payload a non-empty
/// whole number of 32-bit little-endian floats; the channel count defaults to 1 and is at
/// least 1.
pub fn check_pcm_request(sample_rate_hz: u32, payload_len: usize, channels: Option<u16>) -> (r:
    Result<usize, String>)
    ensures
        match r {
            Ok(c) => sample_rate_hz > 0 && payload_len % 4 == 0 && payload_len > 0 && c == match channels {
                Some(n) => if n < 1 {
                    1
                } else {
                    n as int
                },
                None => 1,
            },
            Err(e) => if sample_rate_hz == 0 {
                e@ == "Sample rate must be greater than zero"@
            } else if payload_len % 4 != 0 {
                e@ == "PCM payload length "@ + crate::text::decimal(payload_len as nat)
                    + " is not a multiple of 4 (f32 LE)"@
            } else {
                payload_len == 0 && e@ == "PCM payload is empty"@
            },
        },
{
    if sample_rate_hz == 0 {
        return Err("Sample rate must be greater than zero".to_owned());
    }
    if payload_len % 4 != 0 {
        let mut message = String::new();
        crate::text::push_str(&mut message, "PCM payload length ");
        let digits = crate::text::decimal_string(payload_len as u64);
        crate::text::push_str(&mut message, digits.as_str());
        crate::text::push_str(&mut message, " is not a multiple of 4 (f32 LE)");
        return Err(message);
    }
    if payload_len == 0 {
        return Err("PCM payload is empty".to_owned());
    }
    Ok(match channels {
        Some(n) => if n < 1 {
            1
        } else {
            n as usize
        },
        None => 1,
    })
}

} // verus!
