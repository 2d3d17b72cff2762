//! Text-to-speech audio cache: cache keys, audio format names and WAV framing of raw PCM.
use vstd::prelude::*;

use crate::text::str_eq;
use vstd::string::StringSliceAdditionalSpecFns;

verus! {

/// Cache namespace, bumped when audio encoding defaults change.
pub const CACHE_NAMESPACE: &'static str = "tts-quality-v5-stream-pcm-clone-24000|";

/// Lower-case hexadecimal BLAKE3 digest of `data` (a name for what `blake3` computes).
pub uninterp spec fn blake3_hex(data: Seq<u8>) -> Seq<char>;

/// BLAKE3 digest of `data`, as 64 lower-case hexadecimal characters (`blake3::hash`, `to_hex`).
#[verifier::external_body]
pub(crate) fn blake3_hex_of(data: &[u8]) -> (r: String)
    ensures
        r@ == blake3_hex(data@),
{
    blake3::hash(data).to_hex().to_string()
}

/// UTF-8 bytes of a string.
pub open spec fn utf8(s: Seq<char>) -> Seq<u8> {
    vstd::utf8::encode_utf8(s)
}

/// The bytes a cache key digests: namespace, provider, model, voice, text and prompt, separated by `|`.
pub open spec fn cache_key_material(
    provider_id: Seq<char>,
    model_id: Seq<char>,
    voice_id: Seq<char>,
    text: Seq<char>,
    prompt: Option<Seq<char>>,
) -> Seq<u8> {
    utf8("tts-quality-v5-stream-pcm-clone-24000|"@) + utf8(provider_id) + utf8("|"@) + utf8(model_id)
        + utf8("|"@) + utf8(voice_id) + utf8("|"@) + utf8(text) + utf8("|"@) + match prompt {
        Some(p) => utf8(p),
        None => Seq::empty(),
    }
}

/// Texts with the same UTF-8 bytes are the same text.
pub proof fn lemma_utf8_injective(a: Seq<char>, b: Seq<char>)
    requires
        utf8(a) == utf8(b),
    ensures
        a == b,
{
    vstd::utf8::encode_utf8_decode_utf8(a);
    vstd::utf8::encode_utf8_decode_utf8(b);
}

proof fn lemma_cancel_around(x: Seq<u8>, y1: Seq<u8>, y2: Seq<u8>, z: Seq<u8>)
    requires
        x + y1 + z == x + y2 + z,
    ensures
        y1 == y2,
{
    let w1 = x + y1 + z;
    let w2 = x + y2 + z;
    assert(y1.len() == y2.len()) by {
        assert(w1.len() == w2.len());
    }
    assert(y1 =~= w1.subrange(x.len() as int, (x.len() + y1.len()) as int));
    assert(y2 =~= w2.subrange(x.len() as int, (x.len() + y2.len()) as int));
}

proof fn lemma_provider_apart(
    provider_id: Seq<char>,
    model_id: Seq<char>,
    voice_id: Seq<char>,
    text: Seq<char>,
    prompt: Option<Seq<char>>,
    other: Seq<char>,
)
    requires
        other != provider_id,
    ensures
        cache_key_material(provider_id, model_id, voice_id, text, prompt) != cache_key_material(other, model_id, voice_id, text, prompt),
{
    let ns = utf8("tts-quality-v5-stream-pcm-clone-24000|"@);
    let bar = utf8("|"@);
    let tail = match prompt {
        Some(p) => utf8(p),
        None => Seq::empty(),
    };
    let x = ns;
    let z = bar + utf8(model_id) + bar + utf8(voice_id) + bar + utf8(text) + bar + tail;
    let m1 = cache_key_material(provider_id, model_id, voice_id, text, prompt);
    let m2 = cache_key_material(other, model_id, voice_id, text, prompt);
    assert(m1 =~= x + utf8(provider_id) + z);
    assert(m2 =~= x + utf8(other) + z);
    if m1 == m2 {
        lemma_cancel_around(x, utf8(provider_id), utf8(other), z);
        lemma_utf8_injective(provider_id, other);
    }
}

proof fn lemma_model_apart(
    provider_id: Seq<char>,
    model_id: Seq<char>,
    voice_id: Seq<char>,
    text: Seq<char>,
    prompt: Option<Seq<char>>,
    other: Seq<char>,
)
    requires
        other != model_id,
    ensures
        cache_key_material(provider_id, model_id, voice_id, text, prompt) != cache_key_material(provider_id, other, voice_id, text, prompt),
{
    let ns = utf8("tts-quality-v5-stream-pcm-clone-24000|"@);
    let bar = utf8("|"@);
    let tail = match prompt {
        Some(p) => utf8(p),
        None => Seq::empty(),
    };
    let x = ns + utf8(provider_id) + bar;
    let z = bar + utf8(voice_id) + bar + utf8(text) + bar + tail;
    let m1 = cache_key_material(provider_id, model_id, voice_id, text, prompt);
    let m2 = cache_key_material(provider_id, other, voice_id, text, prompt);
    assert(m1 =~= x + utf8(model_id) + z);
    assert(m2 =~= x + utf8(other) + z);
    if m1 == m2 {
        lemma_cancel_around(x, utf8(model_id), utf8(other), z);
        lemma_utf8_injective(model_id, other);
    }
}

proof fn lemma_voice_apart(
    provider_id: Seq<char>,
    model_id: Seq<char>,
    voice_id: Seq<char>,
    text: Seq<char>,
    prompt: Option<Seq<char>>,
    other: Seq<char>,
)
    requires
        other != voice_id,
    ensures
        cache_key_material(provider_id, model_id, voice_id, text, prompt) != cache_key_material(provider_id, model_id, other, text, prompt),
{
    let ns = utf8("tts-quality-v5-stream-pcm-clone-24000|"@);
    let bar = utf8("|"@);
    let tail = match prompt {
        Some(p) => utf8(p),
        None => Seq::empty(),
    };
    let x = ns + utf8(provider_id) + bar + utf8(model_id) + bar;
    let z = bar + utf8(text) + bar + tail;
    let m1 = cache_key_material(provider_id, model_id, voice_id, text, prompt);
    let m2 = cache_key_material(provider_id, model_id, other, text, prompt);
    assert(m1 =~= x + utf8(voice_id) + z);
    assert(m2 =~= x + utf8(other) + z);
    if m1 == m2 {
        lemma_cancel_around(x, utf8(voice_id), utf8(other), z);
        lemma_utf8_injective(voice_id, other);
    }
}

proof fn lemma_text_apart(
    provider_id: Seq<char>,
    model_id: Seq<char>,
    voice_id: Seq<char>,
    text: Seq<char>,
    prompt: Option<Seq<char>>,
    other: Seq<char>,
)
    requires
        other != text,
    ensures
        cache_key_material(provider_id, model_id, voice_id, text, prompt) != cache_key_material(provider_id, model_id, voice_id, other, prompt),
{
    let ns = utf8("tts-quality-v5-stream-pcm-clone-24000|"@);
    let bar = utf8("|"@);
    let tail = match prompt {
        Some(p) => utf8(p),
        None => Seq::empty(),
    };
    let x = ns + utf8(provider_id) + bar + utf8(model_id) + bar + utf8(voice_id) + bar;
    let z = bar + tail;
    let m1 = cache_key_material(provider_id, model_id, voice_id, text, prompt);
    let m2 = cache_key_material(provider_id, model_id, voice_id, other, prompt);
    assert(m1 =~= x + utf8(text) + z);
    assert(m2 =~= x + utf8(other) + z);
    if m1 == m2 {
        lemma_cancel_around(x, utf8(text), utf8(other), z);
        lemma_utf8_injective(text, other);
    }
}

/// Requests that differ in exactly one of provider, model, voice and text have different key
/// material, so different cached audio: each of the four is digested in its own place.
pub proof fn law_cache_key_material_tells_requests_apart(
    provider_id: Seq<char>,
    model_id: Seq<char>,
    voice_id: Seq<char>,
    text: Seq<char>,
    prompt: Option<Seq<char>>,
    other: Seq<char>,
)
    ensures
        other != provider_id ==> cache_key_material(provider_id, model_id, voice_id, text, prompt)
            != cache_key_material(other, model_id, voice_id, text, prompt),
        other != model_id ==> cache_key_material(provider_id, model_id, voice_id, text, prompt)
            != cache_key_material(provider_id, other, voice_id, text, prompt),
        other != voice_id ==> cache_key_material(provider_id, model_id, voice_id, text, prompt)
            != cache_key_material(provider_id, model_id, other, text, prompt),
        other != text ==> cache_key_material(provider_id, model_id, voice_id, text, prompt)
            != cache_key_material(provider_id, model_id, voice_id, other, prompt),
{
    if other != provider_id {
        lemma_provider_apart(provider_id, model_id, voice_id, text, prompt, other);
    }
    if other != model_id {
        lemma_model_apart(provider_id, model_id, voice_id, text, prompt, other);
    }
    if other != voice_id {
        lemma_voice_apart(provider_id, model_id, voice_id, text, prompt, other);
    }
    if other != text {
        lemma_text_apart(provider_id, model_id, voice_id, text, prompt, other);
    }
}

/// Appends the UTF-8 bytes of `s`.
pub(crate) fn push_utf8(out: &mut Vec<u8>, s: &str)
    ensures
        final(out)@ == old(out)@ + utf8(s@),
{
    let b = s.as_bytes();
    let mut i: usize = 0;
    while i < b.len()
        invariant
            i <= b@.len(),
            b@ == s.spec_bytes(),
            out@ == old(out)@ + b@.take(i as int),
        decreases b.len() - i,
    {
        out.push(b[i]);
        i += 1;
        assert(out@ =~= old(out)@ + b@.take(i as int));
    }
    assert(b@.take(b@.len() as int) =~= b@);
}

/// Cache key of a synthesized utterance: the BLAKE3 digest of its identifying fields.
pub fn generate_cache_key(
    provider_id: &str,
    model_id: &str,
    voice_id: &str,
    text: &str,
    prompt: Option<&str>,
) -> (r: String)
    ensures
        r@ == blake3_hex(
            cache_key_material(
                provider_id@,
                model_id@,
                voice_id@,
                text@,
                match prompt {
                    Some(p) => Some(p@),
                    None => None,
                },
            ),
        ),
{
    let mut material: Vec<u8> = Vec::new();
    push_utf8(&mut material, CACHE_NAMESPACE);
    push_utf8(&mut material, provider_id);
    push_utf8(&mut material, "|");
    push_utf8(&mut material, model_id);
    push_utf8(&mut material, "|");
    push_utf8(&mut material, voice_id);
    push_utf8(&mut material, "|");
    push_utf8(&mut material, text);
    push_utf8(&mut material, "|");
    if let Some(p) = prompt {
        push_utf8(&mut material, p);
    }
    proof {
        let p = match prompt {
            Some(p) => Some(p@),
            None => None,
        };
        assert(material@ =~= cache_key_material(provider_id@, model_id@, voice_id@, text@, p));
    }
    blake3_hex_of(material.as_slice())
}

/// Little-endian bytes of a 32-bit value.
pub open spec fn le32(n: u32) -> Seq<u8> {
    seq![
        (n % 256) as u8,
        ((n / 256) % 256) as u8,
        ((n / 65536) % 256) as u8,
        (n / 16777216) as u8,
    ]
}

/// Little-endian bytes of a 16-bit value.
pub open spec fn le16(n: u16) -> Seq<u8> {
    seq![(n % 256) as u8, (n / 256) as u8]
}

/// The value of four little-endian bytes at `at`.
pub open spec fn read_le32(b: Seq<u8>, at: int) -> int {
    b[at] + b[at + 1] * 256 + b[at + 2] * 65536 + b[at + 3] * 16777216
}

/// The value of two little-endian bytes at `at`.
pub open spec fn read_le16(b: Seq<u8>, at: int) -> int {
    b[at] + b[at + 1] * 256
}

pub open spec fn ascii(s: Seq<char>) -> Seq<u8> {
    s.map_values(|c: char| c as u8)
}

/// The 44-byte header of a PCM WAV file holding `data_size` bytes of 16-bit mono samples.
pub open spec fn wav_header(data_size: u32, sample_rate: u32) -> Seq<u8> {
    ascii("RIFF"@) + le32((36 + data_size) as u32) + ascii("WAVEfmt "@) + le32(16) + le16(1) + le16(
        1,
    ) + le32(sample_rate) + le32((sample_rate * 2) as u32) + le16(2) + le16(16) + ascii("data"@)
        + le32(data_size)
}

/// Why raw PCM cannot be framed as WAV, if it cannot.
pub open spec fn wav_error(len: nat, sample_rate: u32) -> Option<Seq<char>> {
    if sample_rate == 0 {
        Some("PCM sample rate must be greater than zero"@)
    } else if len % 2 != 0 {
        Some("PCM16 audio data must contain complete samples"@)
    } else if len + 36 > u32::MAX {
        Some("PCM audio data is too large for a WAV container"@)
    } else if sample_rate * 2 > u32::MAX {
        Some("PCM sample rate is too large for a WAV container"@)
    } else {
        None
    }
}

fn push_le32(out: &mut Vec<u8>, n: u32)
    ensures
        final(out)@ == old(out)@ + le32(n),
{
    out.push((n % 256) as u8);
    out.push(((n / 256) % 256) as u8);
    out.push(((n / 65536) % 256) as u8);
    out.push((n / 16777216) as u8);
    assert(out@ =~= old(out)@ + le32(n));
}

fn push_le16(out: &mut Vec<u8>, n: u16)
    ensures
        final(out)@ == old(out)@ + le16(n),
{
    out.push((n % 256) as u8);
    out.push((n / 256) as u8);
    assert(out@ =~= old(out)@ + le16(n));
}

fn push_ascii(out: &mut Vec<u8>, s: &str)
    requires
        vstd::utf8::is_ascii_chars(s@),
    ensures
        final(out)@ == old(out)@ + ascii(s@),
{
    let b = s.as_bytes();
    proof {
        vstd::utf8::is_ascii_chars_encode_utf8(s@);
    }
    let mut i: usize = 0;
    while i < b.len()
        invariant
            i <= b@.len(),
            b@ == s.spec_bytes(),
            b@ == ascii(s@),
            out@ == old(out)@ + b@.take(i as int),
        decreases b.len() - i,
    {
        out.push(b[i]);
        i += 1;
        assert(out@ =~= old(out)@ + b@.take(i as int));
    }
    assert(b@.take(b@.len() as int) =~= b@);
}

/// Wraps 16-bit mono PCM samples in a WAV container.
pub fn pcm16_mono_to_wav(audio_data: &[u8], sample_rate: u32) -> (r: Result<Vec<u8>, String>)
    ensures
        match r {
            Ok(wav) => wav_error(audio_data@.len(), sample_rate) is None && wav@ == wav_header(
                audio_data@.len() as u32,
                sample_rate,
            ) + audio_data@,
            Err(msg) => wav_error(audio_data@.len(), sample_rate) == Some(msg@),
        },
{
    if sample_rate == 0 {
        return Err("PCM sample rate must be greater than zero".to_owned());
    }
    if audio_data.len() % 2 != 0 {
        return Err("PCM16 audio data must contain complete samples".to_owned());
    }
    if audio_data.len() > 4294967259usize {
        return Err("PCM audio data is too large for a WAV container".to_owned());
    }
    if sample_rate > 2147483647u32 {
        return Err("PCM sample rate is too large for a WAV container".to_owned());
    }
    let data_size = audio_data.len() as u32;
    let riff_size = 36u32 + data_size;
    let byte_rate = sample_rate * 2;
    proof {
        reveal_strlit("RIFF");
        reveal_strlit("WAVEfmt ");
        reveal_strlit("data");
    }
    let mut wav: Vec<u8> = Vec::new();
    push_ascii(&mut wav, "RIFF");
    push_le32(&mut wav, riff_size);
    push_ascii(&mut wav, "WAVEfmt ");
    push_le32(&mut wav, 16);
    push_le16(&mut wav, 1);
    push_le16(&mut wav, 1);
    push_le32(&mut wav, sample_rate);
    push_le32(&mut wav, byte_rate);
    push_le16(&mut wav, 2);
    push_le16(&mut wav, 16);
    push_ascii(&mut wav, "data");
    push_le32(&mut wav, data_size);
    let ghost header = wav@;
    assert(header =~= wav_header(data_size, sample_rate));
    let mut i: usize = 0;
    while i < audio_data.len()
        invariant
            i <= audio_data.len(),
            wav@ == header + audio_data@.take(i as int),
        decreases audio_data.len() - i,
    {
        wav.push(audio_data[i]);
        i += 1;
        assert(wav@ =~= header + audio_data@.take(i as int));
    }
    assert(audio_data@.take(audio_data@.len() as int) =~= audio_data@);
    Ok(wav)
}

/// Reading the header back gives the sizes and sample rate it was built from.
pub proof fn law_wav_header_reads_back(data_size: u32, sample_rate: u32)
    requires
        wav_error(data_size as nat, sample_rate) is None,
    ensures
        wav_header(data_size, sample_rate).len() == 44,
        read_le32(wav_header(data_size, sample_rate), 4) == 36 + data_size,
        read_le16(wav_header(data_size, sample_rate), 20) == 1,
        read_le16(wav_header(data_size, sample_rate), 22) == 1,
        read_le32(wav_header(data_size, sample_rate), 24) == sample_rate,
        read_le32(wav_header(data_size, sample_rate), 28) == 2 * sample_rate,
        read_le16(wav_header(data_size, sample_rate), 34) == 16,
        read_le32(wav_header(data_size, sample_rate), 40) == data_size,
{
    reveal_strlit("RIFF");
    reveal_strlit("WAVEfmt ");
    reveal_strlit("data");
    let h = wav_header(data_size, sample_rate);
    assert(h.len() == 44);
    lemma_le32_round_trip((36 + data_size) as u32);
    lemma_le32_round_trip(sample_rate);
    lemma_le32_round_trip((sample_rate * 2) as u32);
    lemma_le32_round_trip(data_size);
    assert(h[4] == le32((36 + data_size) as u32)[0]);
    assert(h[5] == le32((36 + data_size) as u32)[1]);
    assert(h[6] == le32((36 + data_size) as u32)[2]);
    assert(h[7] == le32((36 + data_size) as u32)[3]);
    assert(h[24] == le32(sample_rate)[0]);
    assert(h[25] == le32(sample_rate)[1]);
    assert(h[26] == le32(sample_rate)[2]);
    assert(h[27] == le32(sample_rate)[3]);
    assert(h[28] == le32((sample_rate * 2) as u32)[0]);
    assert(h[29] == le32((sample_rate * 2) as u32)[1]);
    assert(h[30] == le32((sample_rate * 2) as u32)[2]);
    assert(h[31] == le32((sample_rate * 2) as u32)[3]);
    assert(h[40] == le32(data_size)[0]);
    assert(h[41] == le32(data_size)[1]);
    assert(h[42] == le32(data_size)[2]);
    assert(h[43] == le32(data_size)[3]);
    assert(h[20] == 1 && h[21] == 0 && h[22] == 1 && h[23] == 0 && h[34] == 16 && h[35] == 0);
}

/// Four little-endian bytes read back to the value they encode.
pub proof fn lemma_le32_round_trip(n: u32)
    ensures
        le32(n)[0] + le32(n)[1] * 256 + le32(n)[2] * 65536 + le32(n)[3] * 16777216 == n,
{
    let b = le32(n);
    assert(b[0] == n % 256);
    assert(b[1] == (n / 256) % 256);
    assert(b[2] == (n / 65536) % 256);
    assert(b[3] == n / 16777216);
    assert(n % 256 + ((n / 256) % 256) * 256 + ((n / 65536) % 256) * 65536 + (n / 16777216)
        * 16777216 == n) by (nonlinear_arith);
}

/// File extension used for a stored audio format.
pub open spec fn format_extension(format: Seq<char>) -> Seq<char> {
    if format == "audio/mpeg"@ || format == "audio/mp3"@ {
        "mp3"@
    } else if format == "audio/wav"@ || format == "audio/wave"@ {
        "wav"@
    } else if format == "audio/ogg"@ {
        "ogg"@
    } else if format == "audio/webm"@ {
        "webm"@
    } else if format == "audio/pcm"@ {
        "pcm"@
    } else {
        "audio"@
    }
}

/// Audio format recorded for a stored file extension.
pub open spec fn extension_format(ext: Seq<char>) -> Seq<char> {
    if ext == "mp3"@ {
        "audio/mpeg"@
    } else if ext == "wav"@ {
        "audio/wav"@
    } else if ext == "ogg"@ {
        "audio/ogg"@
    } else if ext == "webm"@ {
        "audio/webm"@
    } else if ext == "pcm"@ {
        "audio/pcm"@
    } else {
        "audio/octet-stream"@
    }
}

pub fn format_to_extension(format: &str) -> (r: &'static str)
    ensures
        r@ == format_extension(format@),
{
    if str_eq(format, "audio/mpeg") || str_eq(format, "audio/mp3") {
        "mp3"
    } else if str_eq(format, "audio/wav") || str_eq(format, "audio/wave") {
        "wav"
    } else if str_eq(format, "audio/ogg") {
        "ogg"
    } else if str_eq(format, "audio/webm") {
        "webm"
    } else if str_eq(format, "audio/pcm") {
        "pcm"
    } else {
        "audio"
    }
}

pub fn extension_to_format(ext: &str) -> (r: String)
    ensures
        r@ == extension_format(ext@),
{
    if str_eq(ext, "mp3") {
        "audio/mpeg".to_owned()
    } else if str_eq(ext, "wav") {
        "audio/wav".to_owned()
    } else if str_eq(ext, "ogg") {
        "audio/ogg".to_owned()
    } else if str_eq(ext, "webm") {
        "audio/webm".to_owned()
    } else if str_eq(ext, "pcm") {
        "audio/pcm".to_owned()
    } else {
        "audio/octet-stream".to_owned()
    }
}

/// The extensions a cached clip is looked up under, in order.
pub open spec fn cached_extensions() -> Seq<Seq<char>> {
    seq!["mp3"@, "wav"@, "ogg"@, "webm"@, "pcm"@, "audio"@]
}

/// A cached clip's file name: `<key>.<extension of its format>`.
pub fn cache_file_name(cache_key: &str, format: &str) -> (r: String)
    ensures
        r@ == cache_key@ + "."@ + format_extension(format@),
{
    let mut out = String::new();
    crate::text::push_str(&mut out, cache_key);
    crate::text::push_str(&mut out, ".");
    crate::text::push_str(&mut out, format_to_extension(format));
    out
}

/// The file names a clip may be cached under, in lookup order, each with the format it is
/// read back as.
pub fn cache_file_candidates(cache_key: &str) -> (r: Vec<(String, String)>)
    ensures
        r@.len() == 6,
        forall|k: int|
            0 <= k < 6 ==> (#[trigger] r@[k]).0@ == cache_key@ + "."@ + cached_extensions()[k]
                && r@[k].1@ == extension_format(cached_extensions()[k]),
{
    let extensions: [&str; 6] = ["mp3", "wav", "ogg", "webm", "pcm", "audio"];
    let mut out: Vec<(String, String)> = Vec::new();
    let mut k: usize = 0;
    while k < 6
        invariant
            k <= 6,
            extensions@ == seq!["mp3", "wav", "ogg", "webm", "pcm", "audio"],
            out@.len() == k,
            forall|j: int|
                0 <= j < k ==> (#[trigger] out@[j]).0@ == cache_key@ + "."@ + cached_extensions()[j]
                    && out@[j].1@ == extension_format(cached_extensions()[j]),
        decreases 6 - k,
    {
        let mut name = String::new();
        crate::text::push_str(&mut name, cache_key);
        crate::text::push_str(&mut name, ".");
        crate::text::push_str(&mut name, extensions[k]);
        out.push((name, extension_to_format(extensions[k])));
        k += 1;
    }
    out
}

/// Size and number of files in the audio cache.
pub struct TtsCacheStats {
    pub size_bytes: u64,
    pub count: u64,
}

} // verus!
