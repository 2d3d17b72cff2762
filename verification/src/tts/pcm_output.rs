//! Streaming PCM playback: what the platform audio track's answer to a write means.
use vstd::prelude::*;

use crate::text::{decimal, decimal_string, push_str, signed_decimal, signed_decimal_string};

verus! {

/// The outcome of writing `byte_len` bytes to the audio track, which answered `written`:
/// success when all bytes were taken, else an error that tells a failed write (a negative
/// answer) from a partial one.
pub open spec fn pcm_write_outcome(written: int, byte_len: int) -> Result<(), Seq<char>> {
    if written == byte_len {
        Ok(())
    } else if written < 0 {
        Err("Android AudioTrack write failed: "@ + signed_decimal(written))
    } else {
        Err(
            "Android AudioTrack wrote "@ + decimal(written as nat) + " of "@ + decimal(
                byte_len as nat,
            ) + " bytes"@,
        )
    }
}

/// Interprets the audio track's answer to a write of `byte_len` bytes (a Java byte array,
/// so at most `i32::MAX` long).
pub fn pcm_write_result(written: i32, byte_len: usize) -> (r: Result<(), String>)
    requires
        byte_len <= i32::MAX,
    ensures
        match (r, pcm_write_outcome(written as int, byte_len as int)) {
            (Ok(_), Ok(_)) => true,
            (Err(m), Err(e)) => m@ == e,
            _ => false,
        },
{
    if written as i64 == byte_len as i64 {
        Ok(())
    } else if written < 0 {
        let mut message = "Android AudioTrack write failed: ".to_owned();
        let digits = signed_decimal_string(written);
        push_str(&mut message, digits.as_str());
        Err(message)
    } else {
        let mut message = "Android AudioTrack wrote ".to_owned();
        let done = decimal_string(written as u64);
        push_str(&mut message, done.as_str());
        push_str(&mut message, " of ");
        let total = decimal_string(byte_len as u64);
        push_str(&mut message, total.as_str());
        push_str(&mut message, " bytes");
        Err(message)
    }
}

} // verus!
