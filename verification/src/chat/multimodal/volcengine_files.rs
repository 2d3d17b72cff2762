//! Volcengine Ark Files API support: finding the inline images of chat messages, putting the
//! uploaded file ids (or compressed Base64) in their place, decoding image data URLs, and the
//! upload cache's keys and expiry.
use vstd::prelude::*;

use base64::Engine;

use crate::json::{views, Json, JsonNumber, JsonV};
use crate::text::{
    chars_of, contains, contains_exec, find_char, lemma_next_char, lower_seq, next_char, parse_u64,
    parse_u64_exec, starts_with, starts_with_exec, str_eq, string_from_range, to_ascii_lowercase,
    trim, trimmed,
};
use crate::tts::audio_cache::{blake3_hex, blake3_hex_of, push_utf8, utf8};

verus! {

pub const CACHE_PROFILE: &'static str = "volcengine-ark-files-v1";

pub const CACHE_FALLBACK_TTL_MS: u64 = 21_600_000;

pub const CACHE_EXPIRY_SAFETY_MS: u64 = 600_000;

/// The most uploads the Files API cache keeps.
pub const CACHE_MAX_ENTRIES: usize = 4096;

#[derive(Debug)]
pub struct FileResolution {
    pub file_id: String,
    pub cache_hit: bool,
}

/// An image part: the message and the part within its content.
#[derive(Debug, Clone, Copy, PartialEq, Eq, Structural)]
pub struct ImagePartLocation {
    pub message_index: usize,
    pub part_index: usize,
}

/// A cached upload.
#[derive(Debug)]
pub struct CachedArkFile {
    pub file_id: String,
    pub cached_at_ms: u64,
    pub expires_at_ms: Option<u64>,
}

// ---------------------------------------------------------------------------
// Image parts
// ---------------------------------------------------------------------------

/// An `image_url` part whose URL is an inline `data:image/` URL.
pub open spec fn is_inline_image_part(part: JsonV) -> bool {
    part.get_str("type"@) == Some("image_url"@) && match part.get("image_url"@) {
        Some(image) => match image.get_str("url"@) {
            Some(url) => starts_with(url, "data:image/"@),
            None => false,
        },
        None => false,
    }
}

/// Inline image parts among the first `n` parts of message `m`.
pub open spec fn part_locations(m: int, parts: Seq<JsonV>, n: nat) -> Seq<(int, int)>
    decreases n,
{
    if n == 0 {
        Seq::empty()
    } else {
        let rest = part_locations(m, parts, (n - 1) as nat);
        if is_inline_image_part(parts[n - 1]) {
            rest.push((m, n - 1))
        } else {
            rest
        }
    }
}

pub open spec fn content_parts(message: JsonV) -> Seq<JsonV> {
    match message.get_array("content"@) {
        Some(parts) => parts,
        None => Seq::empty(),
    }
}

/// Inline image parts of the first `n` messages, in order.
pub open spec fn image_locations(messages: Seq<JsonV>, n: nat) -> Seq<(int, int)>
    decreases n,
{
    if n == 0 {
        Seq::empty()
    } else {
        image_locations(messages, (n - 1) as nat) + part_locations(
            n - 1,
            content_parts(messages[n - 1]),
            content_parts(messages[n - 1]).len(),
        )
    }
}

proof fn lemma_part_locations(m: int, parts: Seq<JsonV>, n: nat)
    requires
        n <= parts.len(),
    ensures
        forall|k: int|
            0 <= k < part_locations(m, parts, n).len() ==> {
                let (mm, pp) = #[trigger] part_locations(m, parts, n)[k];
                &&& mm == m
                &&& 0 <= pp < n
                &&& is_inline_image_part(parts[pp])
            },
    decreases n,
{
    if n > 0 {
        let rest = part_locations(m, parts, (n - 1) as nat);
        lemma_part_locations(m, parts, (n - 1) as nat);
        assert forall|k: int| 0 <= k < part_locations(m, parts, n).len() implies {
            let (mm, pp) = #[trigger] part_locations(m, parts, n)[k];
            &&& mm == m
            &&& 0 <= pp < n
            &&& is_inline_image_part(parts[pp])
        } by {
            if k < rest.len() {
                assert(part_locations(m, parts, n)[k] == rest[k]);
            }
        }
    }
}

/// Only inline images are rewritten: every location found names an existing part of an
/// existing message, and that part is an image given by a `data:image/` URL.
pub proof fn law_only_inline_images_found(messages: Seq<JsonV>, n: nat)
    requires
        n <= messages.len(),
    ensures
        forall|k: int|
            0 <= k < image_locations(messages, n).len() ==> {
                let (m, p) = #[trigger] image_locations(messages, n)[k];
                &&& 0 <= m < n
                &&& 0 <= p < content_parts(messages[m]).len()
                &&& is_inline_image_part(content_parts(messages[m])[p])
            },
    decreases n,
{
    if n > 0 {
        let prev = image_locations(messages, (n - 1) as nat);
        let parts = content_parts(messages[n - 1]);
        let here = part_locations(n - 1, parts, parts.len());
        law_only_inline_images_found(messages, (n - 1) as nat);
        lemma_part_locations(n - 1, parts, parts.len());
        assert forall|k: int| 0 <= k < image_locations(messages, n).len() implies {
            let (m, p) = #[trigger] image_locations(messages, n)[k];
            &&& 0 <= m < n
            &&& 0 <= p < content_parts(messages[m]).len()
            &&& is_inline_image_part(content_parts(messages[m])[p])
        } by {
            if k < prev.len() {
                assert(image_locations(messages, n)[k] == prev[k]);
            } else {
                assert(image_locations(messages, n)[k] == here[k - prev.len()]);
            }
        }
    }
}

pub open spec fn location_views(v: Seq<ImagePartLocation>) -> Seq<(int, int)> {
    Seq::new(v.len(), |i: int| (v[i].message_index as int, v[i].part_index as int))
}

fn is_inline_image(part: &Json) -> (r: bool)
    ensures
        r == is_inline_image_part(part@),
{
    let is_image = match part.get_str("type") {
        Some(t) => str_eq(t.as_str(), "image_url"),
        None => false,
    };
    let is_inline = match part.get("image_url") {
        Some(image) => match image.get_str("url") {
            Some(url) => starts_with_exec(&chars_of(url.as_str()), &chars_of("data:image/")),
            None => false,
        },
        None => false,
    };
    is_image && is_inline
}

/// The inline image parts of chat messages, in order.
pub fn inline_image_locations(messages: &[Json]) -> (r: Vec<ImagePartLocation>)
    ensures
        location_views(r@) == image_locations(views(messages@), messages@.len()),
{
    let ghost ms = views(messages@);
    let mut locations: Vec<ImagePartLocation> = Vec::new();
    let mut m: usize = 0;
    while m < messages.len()
        invariant
            m <= messages.len(),
            ms == views(messages@),
            location_views(locations@) == image_locations(ms, m as nat),
        decreases messages.len() - m,
    {
        let ghost before = location_views(locations@);
        if let Some(parts) = messages[m].get_array("content") {
            let ghost ps = views(parts@);
            assert(ps == content_parts(ms[m as int]));
            let mut p: usize = 0;
            while p < parts.len()
                invariant
                    p <= parts.len(),
                    ps == views(parts@),
                    location_views(locations@) == before + part_locations(m as int, ps, p as nat),
                decreases parts.len() - p,
            {
                let ghost prev = location_views(locations@);
                if is_inline_image(&parts[p]) {
                    locations.push(ImagePartLocation { message_index: m, part_index: p });
                    assert(location_views(locations@) =~= prev.push((m as int, p as int)));
                }
                assert(ps[p as int] == parts@[p as int]@);
                p += 1;
            }
        } else {
            assert(content_parts(ms[m as int]) =~= Seq::<JsonV>::empty());
            assert(part_locations(m as int, Seq::<JsonV>::empty(), 0) =~= Seq::<(int, int)>::empty());
        }
        assert(location_views(locations@) =~= image_locations(ms, (m + 1) as nat));
        m += 1;
    }
    locations
}

/// The URL of the image part at a location.
pub open spec fn image_url_of(messages: Seq<JsonV>, m: int, p: int) -> Option<Seq<char>> {
    if 0 <= m < messages.len() && 0 <= p < content_parts(messages[m]).len() {
        match content_parts(messages[m])[p].get("image_url"@) {
            Some(image) => image.get_str("url"@),
            None => None,
        }
    } else {
        None
    }
}

pub fn image_url_at(messages: &[Json], location: ImagePartLocation) -> (r: Option<&String>)
    ensures
        match r {
            Some(url) => image_url_of(views(messages@), location.message_index as int, location.part_index as int)
                == Some(url@),
            None => image_url_of(views(messages@), location.message_index as int, location.part_index as int)
                is None,
        },
{
    if location.message_index >= messages.len() {
        return None;
    }
    let parts = match messages[location.message_index].get_array("content") {
        Some(parts) => parts,
        None => return None,
    };
    if location.part_index >= parts.len() {
        return None;
    }
    match parts[location.part_index].get("image_url") {
        Some(image) => image.get_str("url"),
        None => None,
    }
}

/// The messages with the `image_url` of the part at a location replaced; `None` when there is
/// no such object part.
pub open spec fn with_image(messages: Seq<JsonV>, m: int, p: int, image: JsonV) -> Option<Seq<JsonV>> {
    if 0 <= m < messages.len() {
        match messages[m].get("content"@) {
            Some(JsonV::Array(parts)) => if 0 <= p < parts.len() && parts[p].is_object() {
                Some(
                    messages.update(
                        m,
                        messages[m].insert(
                            "content"@,
                            JsonV::Array(parts.update(p, parts[p].insert("image_url"@, image))),
                        ),
                    ),
                )
            } else {
                None
            },
            _ => None,
        }
    } else {
        None
    }
}

fn replace_image(messages: &mut Vec<Json>, location: ImagePartLocation, image: Json) -> (r: bool)
    ensures
        match with_image(views(old(messages)@), location.message_index as int, location.part_index as int, image@) {
            Some(updated) => r && views(final(messages)@) == updated,
            None => !r && final(messages)@ == old(messages)@,
        },
{
    let m = location.message_index;
    let p = location.part_index;
    if m >= messages.len() {
        return false;
    }
    let mut parts: Vec<Json> = match messages[m].get("content") {
        Some(content) => {
            proof {
                content.lemma_array_view();
            }
            match content {
                Json::Array(items) => {
                    if p >= items.len() || !items[p].is_object() {
                        return false;
                    }
                    let mut copy: Vec<Json> = Vec::new();
                    let mut i: usize = 0;
                    while i < items.len()
                        invariant
                            i <= items.len(),
                            copy.len() == i,
                            forall|j: int| 0 <= j < i ==> (#[trigger] copy@[j])@ == items@[j]@,
                        decreases items.len() - i,
                    {
                        copy.push(items[i].copy());
                        i += 1;
                    }
                    assert(views(copy@) =~= views(items@));
                    copy
                },
                _ => return false,
            }
        },
        None => return false,
    };
    let ghost before_parts = views(parts@);
    let mut part = parts[p].copy();
    let ghost image_view = image@;
    part.insert("image_url", image);
    parts.set(p, part);
    assert(views(parts@) =~= before_parts.update(p as int, before_parts[p as int].insert("image_url"@, image_view)));
    let mut message = messages[m].copy();
    message.insert("content", Json::array(parts));
    let ghost before = views(messages@);
    messages.set(m, message);
    assert(views(messages@) =~= before.update(m as int, views(old(messages)@)[m as int].insert(
        "content"@,
        JsonV::Array(before_parts.update(p as int, before_parts[p as int].insert("image_url"@, image_view))),
    )));
    true
}

pub open spec fn file_id_image(file_id: Seq<char>) -> JsonV {
    JsonV::Object(seq![("file_id"@, JsonV::Str(file_id))])
}

pub open spec fn data_url_image(data_url: Seq<char>) -> JsonV {
    JsonV::Object(seq![("url"@, JsonV::Str(data_url)), ("detail"@, JsonV::Str("auto"@))])
}

/// Points the image part at a location to an uploaded file.
pub fn replace_with_file_id(messages: &mut Vec<Json>, location: ImagePartLocation, file_id: &str) -> (r: bool)
    ensures
        match with_image(
            views(old(messages)@),
            location.message_index as int,
            location.part_index as int,
            file_id_image(file_id@),
        ) {
            Some(updated) => r && views(final(messages)@) == updated,
            None => !r && final(messages)@ == old(messages)@,
        },
{
    replace_image(messages, location, Json::object1("file_id", Json::from_str(file_id)))
}

/// Puts (compressed) inline data in the image part at a location.
pub fn replace_with_data_url(messages: &mut Vec<Json>, location: ImagePartLocation, data_url: String) -> (r:
    bool)
    ensures
        match with_image(
            views(old(messages)@),
            location.message_index as int,
            location.part_index as int,
            data_url_image(data_url@),
        ) {
            Some(updated) => r && views(final(messages)@) == updated,
            None => !r && final(messages)@ == old(messages)@,
        },
{
    let mut members: Vec<(String, Json)> = Vec::new();
    let ghost url = data_url@;
    members.push(("url".to_owned(), Json::Str(data_url)));
    members.push(("detail".to_owned(), Json::from_str("auto")));
    let image = Json::object(members);
    assert(crate::json::member_views(members@) =~= seq![("url"@, JsonV::Str(url)), ("detail"@, JsonV::Str("auto"@))]);
    replace_image(messages, location, image)
}

// ---------------------------------------------------------------------------
// Data URLs
// ---------------------------------------------------------------------------

/// The character of a 6-bit value in the standard Base64 alphabet of RFC 4648.
pub open spec fn base64_symbol(v: int) -> char {
    if v < 26 {
        ('A' as int + v) as char
    } else if v < 52 {
        ('a' as int + (v - 26)) as char
    } else if v < 62 {
        ('0' as int + (v - 52)) as char
    } else if v == 62 {
        '+'
    } else {
        '/'
    }
}

/// Standard Base64 with padding (RFC 4648, section 4): each group of three bytes becomes four
/// symbols, and a last group of one or two bytes is padded with `=` to four.
pub open spec fn standard_base64(bytes: Seq<u8>) -> Seq<char>
    decreases bytes.len(),
{
    if bytes.len() == 0 {
        Seq::empty()
    } else {
        let b0 = bytes[0] as int;
        let b1 = if bytes.len() > 1 { bytes[1] as int } else { 0 };
        let b2 = if bytes.len() > 2 { bytes[2] as int } else { 0 };
        let group = seq![
            base64_symbol(b0 / 4),
            base64_symbol((b0 % 4) * 16 + b1 / 16),
            if bytes.len() > 1 { base64_symbol((b1 % 16) * 4 + b2 / 64) } else { '=' },
            if bytes.len() > 2 { base64_symbol(b2 % 64) } else { '=' },
        ];
        if bytes.len() > 3 {
            group + standard_base64(bytes.skip(3))
        } else {
            group
        }
    }
}

/// The bytes whose standard Base64 encoding a text is; `None` when it is the encoding of none.
pub open spec fn standard_base64_decoded(text: Seq<char>) -> Option<Seq<u8>> {
    if exists|v: Seq<u8>| standard_base64(v) == text {
        Some(choose|v: Seq<u8>| standard_base64(v) == text)
    } else {
        None
    }
}

proof fn lemma_base64_symbol_injective(x: int, y: int)
    requires
        0 <= x < 64,
        0 <= y < 64,
        base64_symbol(x) == base64_symbol(y),
    ensures
        x == y,
        base64_symbol(x) != '=',
{
}

proof fn lemma_byte_split(x: int, y: int, d: int)
    requires
        0 <= x < 256,
        0 <= y < 256,
        d == 4 || d == 16 || d == 64,
        x / d == y / d,
        x % d == y % d,
    ensures
        x == y,
{
}

/// Different bytes have different standard Base64 encodings.
pub proof fn lemma_standard_base64_injective(a: Seq<u8>, b: Seq<u8>)
    requires
        standard_base64(a) == standard_base64(b),
    ensures
        a == b,
    decreases a.len(),
{
    let ea = standard_base64(a);
    let eb = standard_base64(b);
    if a.len() == 0 || b.len() == 0 {
        assert(a.len() == 0 && b.len() == 0) by {
            if a.len() > 0 {
                assert(ea.len() >= 4);
            }
            if b.len() > 0 {
                assert(eb.len() >= 4);
            }
        }
        assert(a =~= b);
    } else {
        let a0 = a[0] as int;
        let b0 = b[0] as int;
        let a1 = if a.len() > 1 { a[1] as int } else { 0 };
        let b1 = if b.len() > 1 { b[1] as int } else { 0 };
        let a2 = if a.len() > 2 { a[2] as int } else { 0 };
        let b2 = if b.len() > 2 { b[2] as int } else { 0 };
        assert(ea[0] == eb[0] && ea[1] == eb[1] && ea[2] == eb[2] && ea[3] == eb[3]);
        lemma_base64_symbol_injective(a0 / 4, b0 / 4);
        lemma_base64_symbol_injective((a0 % 4) * 16 + a1 / 16, (b0 % 4) * 16 + b1 / 16);
        assert(a0 % 4 == b0 % 4 && a1 / 16 == b1 / 16);
        lemma_byte_split(a0, b0, 4);
        if a.len() > 1 || b.len() > 1 {
            if a.len() > 1 && b.len() > 1 {
                lemma_base64_symbol_injective((a1 % 16) * 4 + a2 / 64, (b1 % 16) * 4 + b2 / 64);
                assert(a1 % 16 == b1 % 16 && a2 / 64 == b2 / 64);
                lemma_byte_split(a1, b1, 16);
            } else if a.len() > 1 {
                lemma_base64_symbol_injective((a1 % 16) * 4 + a2 / 64, 0);
            } else {
                lemma_base64_symbol_injective((b1 % 16) * 4 + b2 / 64, 0);
            }
        }
        if a.len() > 2 || b.len() > 2 {
            if a.len() > 2 && b.len() > 2 {
                lemma_base64_symbol_injective(a2 % 64, b2 % 64);
                lemma_byte_split(a2, b2, 64);
            } else if a.len() > 2 {
                lemma_base64_symbol_injective(a2 % 64, 0);
            } else {
                lemma_base64_symbol_injective(b2 % 64, 0);
            }
        }
        if a.len() > 3 || b.len() > 3 {
            assert(a.len() > 3 && b.len() > 3) by {
                if a.len() <= 3 {
                    assert(ea.len() == 4);
                    assert(b.skip(3).len() > 0);
                    assert(standard_base64(b.skip(3)).len() >= 4);
                    assert(eb.len() > 4);
                }
                if b.len() <= 3 {
                    assert(eb.len() == 4);
                    assert(a.skip(3).len() > 0);
                    assert(standard_base64(a.skip(3)).len() >= 4);
                    assert(ea.len() > 4);
                }
            }
            assert(standard_base64(a.skip(3)) =~= ea.skip(4));
            assert(standard_base64(b.skip(3)) =~= eb.skip(4));
            lemma_standard_base64_injective(a.skip(3), b.skip(3));
            assert(a =~= a.take(3) + a.skip(3));
            assert(b =~= b.take(3) + b.skip(3));
        }
        assert(a =~= b);
    }
}

/// A standard Base64 text decodes to the bytes it was encoded from.
pub proof fn law_base64_decodes_its_encoding(bytes: Seq<u8>)
    ensures
        standard_base64_decoded(standard_base64(bytes)) == Some(bytes),
{
    let text = standard_base64(bytes);
    assert(exists|v: Seq<u8>| standard_base64(v) == text);
    let w = choose|v: Seq<u8>| standard_base64(v) == text;
    lemma_standard_base64_injective(w, bytes);
}

/// `base64::engine::general_purpose::STANDARD.decode`, with the decoder's error message. That
/// engine requires canonical padding and rejects nonzero trailing bits, so it accepts exactly
/// the texts `standard_base64` writes and gives back the bytes they encode.
#[verifier::external_body]
pub(crate) fn decode_base64(text: &str) -> (r: Result<Vec<u8>, String>)
    ensures
        match r {
            Ok(bytes) => standard_base64_decoded(text@) == Some(bytes@),
            Err(_) => standard_base64_decoded(text@) is None,
        },
{
    match base64::engine::general_purpose::STANDARD.decode(text) {
        Ok(bytes) => Ok(bytes),
        Err(error) => Err(error.to_string()),
    }
}

/// The canonical name of an image type (`image/jpg` and `image/pjpeg` are `image/jpeg`,
/// `image/x-png` is `image/png`, compared trimmed and in any ASCII case); others as given.
pub open spec fn canonical_mime(mime: Seq<char>) -> Seq<char> {
    let key = lower_seq(trim(mime));
    if key == "image/jpg"@ || key == "image/pjpeg"@ {
        "image/jpeg"@
    } else if key == "image/x-png"@ {
        "image/png"@
    } else {
        mime
    }
}

pub fn normalize_image_mime_type(mime_type: &str) -> (r: String)
    ensures
        r@ == canonical_mime(mime_type@),
{
    let key = to_ascii_lowercase(trimmed(mime_type).as_str());
    if str_eq(key.as_str(), "image/jpg") || str_eq(key.as_str(), "image/pjpeg") {
        "image/jpeg".to_owned()
    } else if str_eq(key.as_str(), "image/x-png") {
        "image/png".to_owned()
    } else {
        mime_type.to_owned()
    }
}

/// `s` without every leading copy of `p` (`str::trim_start_matches`).
pub open spec fn strip_prefixes(s: Seq<char>, p: Seq<char>) -> Seq<char>
    decreases s.len(),
{
    if p.len() > 0 && starts_with(s, p) {
        strip_prefixes(s.skip(p.len() as int), p)
    } else {
        s
    }
}

/// The image type a data URL's header names, else the fallback.
pub open spec fn header_image_type(metadata: Seq<char>, fallback: Seq<char>) -> Seq<char> {
    let rest = strip_prefixes(metadata, "data:"@);
    let first = rest.take(next_char(rest, ';', 0));
    if starts_with(first, "image/"@) {
        first
    } else {
        fallback
    }
}

/// A decoded data URL: its image type and bytes.
pub struct ParsedDataUrl {
    pub mime_type: String,
    pub bytes: Vec<u8>,
}

pub enum DataUrlError {
    NotDataUrl,
    NotBase64,
    Undecodable,
}

/// How a data URL decodes: its header (before the first comma) must start with `data:` and
/// mention `;base64`; the image type comes from the header (else the fallback), canonical; the
/// bytes are the Base64 payload.
pub open spec fn decoded_data_url(data_url: Seq<char>, fallback: Seq<char>) -> Result<(Seq<char>, Seq<u8>), DataUrlError> {
    let comma = next_char(data_url, ',', 0);
    if comma >= data_url.len() {
        Err(DataUrlError::NotDataUrl)
    } else {
        let metadata = data_url.take(comma);
        if !starts_with(metadata, "data:"@) || !contains(metadata, ";base64"@) {
            Err(DataUrlError::NotBase64)
        } else {
            match standard_base64_decoded(data_url.skip(comma + 1)) {
                Some(bytes) => Ok((canonical_mime(header_image_type(metadata, fallback)), bytes)),
                None => Err(DataUrlError::Undecodable),
            }
        }
    }
}

fn strip_data_prefixes(v: &Vec<char>) -> (r: usize)
    ensures
        r <= v.len(),
        v@.skip(r as int) == strip_prefixes(v@, "data:"@),
{
    proof {
        reveal_strlit("data:");
    }
    let prefix = chars_of("data:");
    let mut start: usize = 0;
    assert(v@.skip(0) =~= v@);
    loop
        invariant
            start <= v.len(),
            prefix@ == "data:"@,
            strip_prefixes(v@, "data:"@) == strip_prefixes(v@.skip(start as int), "data:"@),
        decreases v.len() - start,
    {
        proof {
            reveal_strlit("data:");
        }
        let rest = copy_from(v, start);
        if !starts_with_exec(&rest, &prefix) {
            return start;
        }
        assert(v@.skip(start as int).skip(5) =~= v@.skip(start + 5));
        start = start + 5;
    }
}

fn copy_from(v: &Vec<char>, from: usize) -> (r: Vec<char>)
    requires
        from <= v.len(),
    ensures
        r@ == v@.skip(from as int),
{
    let mut r: Vec<char> = Vec::new();
    let mut i: usize = from;
    while i < v.len()
        invariant
            from <= i <= v.len(),
            r@ == v@.subrange(from as int, i as int),
        decreases v.len() - i,
    {
        r.push(v[i]);
        i += 1;
        assert(r@ =~= v@.subrange(from as int, i as int));
    }
    r
}

/// Decodes an image data URL for upload.
pub fn parse_image_data_url(data_url: &str, fallback_mime_type: &str) -> (r: Result<ParsedDataUrl, String>)
    ensures
        match decoded_data_url(data_url@, fallback_mime_type@) {
            Ok((mime, bytes)) => (r matches Ok(p) && p.mime_type@ == mime && p.bytes@ == bytes),
            Err(DataUrlError::NotDataUrl) => (r matches Err(e) && e@ == "Image attachment is not a data URL"@),
            Err(DataUrlError::NotBase64) => (r matches Err(e) && e@
                == "Image attachment must be Base64 encoded"@),
            Err(DataUrlError::Undecodable) => (r matches Err(e) && starts_with(
                e@,
                "Failed to decode image attachment: "@,
            )),
        },
{
    proof {
        reveal_strlit("data:");
        reveal_strlit(";base64");
        reveal_strlit("image/");
    }
    let v = chars_of(data_url);
    proof {
        lemma_next_char(v@, ',', 0);
    }
    let comma = find_char(&v, ',', 0);
    if comma >= v.len() {
        return Err("Image attachment is not a data URL".to_owned());
    }
    let metadata = copy_range(&v, 0, comma);
    assert(metadata@ =~= v@.take(comma as int));
    if !starts_with_exec(&metadata, &chars_of("data:")) || !contains_exec(&metadata, &chars_of(";base64")) {
        return Err("Image attachment must be Base64 encoded".to_owned());
    }
    let start = strip_data_prefixes(&metadata);
    let rest = copy_from(&metadata, start);
    proof {
        lemma_next_char(rest@, ';', 0);
    }
    let semi = find_char(&rest, ';', 0);
    let first = copy_range(&rest, 0, semi);
    assert(first@ =~= rest@.take(semi as int));
    let mime = if starts_with_exec(&first, &chars_of("image/")) {
        string_from_range(&first, 0, first.len())
    } else {
        fallback_mime_type.to_owned()
    };
    assert(first@.subrange(0, first@.len() as int) =~= first@);
    let encoded = string_from_range(&v, comma + 1, v.len());
    assert(encoded@ =~= v@.skip(comma + 1));
    match decode_base64(encoded.as_str()) {
        Ok(bytes) => Ok(ParsedDataUrl { mime_type: normalize_image_mime_type(mime.as_str()), bytes }),
        Err(error) => {
            let mut message = "Failed to decode image attachment: ".to_owned();
            crate::text::push_str(&mut message, error.as_str());
            assert(message@.take("Failed to decode image attachment: "@.len() as int)
                =~= "Failed to decode image attachment: "@);
            Err(message)
        },
    }
}

fn copy_range(v: &Vec<char>, from: usize, to: usize) -> (r: Vec<char>)
    requires
        from <= to <= v.len(),
    ensures
        r@ == v@.subrange(from as int, to as int),
{
    let mut r: Vec<char> = Vec::new();
    let mut i: usize = from;
    while i < to
        invariant
            from <= i <= to <= v.len(),
            r@ == v@.subrange(from as int, i as int),
        decreases to - i,
    {
        r.push(v[i]);
        i += 1;
        assert(r@ =~= v@.subrange(from as int, i as int));
    }
    r
}

// ---------------------------------------------------------------------------
// Cache
// ---------------------------------------------------------------------------

/// The bytes an upload cache key digests: the cache profile, endpoint, credential, API key
/// fingerprint, image type and image bytes.
pub open spec fn cache_key_material(
    endpoint: Seq<char>,
    credential_id: Seq<char>,
    key_fingerprint: Seq<char>,
    mime_type: Seq<char>,
    bytes: Seq<u8>,
) -> Seq<u8> {
    utf8(CACHE_PROFILE@) + utf8(endpoint) + utf8(credential_id) + utf8(key_fingerprint) + utf8(mime_type)
        + bytes
}

/// The upload cache key of an image: its BLAKE3 digest together with what identifies the
/// upload target.
pub fn cache_key(
    endpoint: &str,
    credential_id: &str,
    key_fingerprint: &str,
    mime_type: &str,
    bytes: &[u8],
) -> (r: String)
    ensures
        r@ == blake3_hex(cache_key_material(endpoint@, credential_id@, key_fingerprint@, mime_type@, bytes@)),
{
    let mut material: Vec<u8> = Vec::new();
    push_utf8(&mut material, CACHE_PROFILE);
    push_utf8(&mut material, endpoint);
    push_utf8(&mut material, credential_id);
    push_utf8(&mut material, key_fingerprint);
    push_utf8(&mut material, mime_type);
    let ghost before = material@;
    let mut i: usize = 0;
    while i < bytes.len()
        invariant
            i <= bytes.len(),
            material@ == before + bytes@.take(i as int),
        decreases bytes.len() - i,
    {
        material.push(bytes[i]);
        i += 1;
        assert(material@ =~= before + bytes@.take(i as int));
    }
    assert(bytes@.take(bytes.len() as int) =~= bytes@);
    blake3_hex_of(material.as_slice())
}

/// The fingerprint of an API key: the BLAKE3 digest of its UTF-8 bytes.
pub fn api_key_fingerprint(api_key: &str) -> (r: String)
    ensures
        r@ == blake3_hex(utf8(api_key@)),
{
    let mut material: Vec<u8> = Vec::new();
    push_utf8(&mut material, api_key);
    assert(material@ =~= utf8(api_key@));
    blake3_hex_of(material.as_slice())
}

/// The digest that identifies a data URL within one request.
pub fn request_key(data_url: &str) -> (r: String)
    ensures
        r@ == blake3_hex(utf8(data_url@)),
{
    api_key_fingerprint(data_url)
}

/// A cached upload is still usable at `now`: ten minutes before its expiry, or, without one,
/// for six hours after it was cached.
pub open spec fn cache_valid(cached: &CachedArkFile, now: u64) -> bool {
    match cached.expires_at_ms {
        Some(expires_at) => expires_at > (if now + CACHE_EXPIRY_SAFETY_MS <= u64::MAX {
            now + CACHE_EXPIRY_SAFETY_MS
        } else {
            u64::MAX as int
        }),
        None => (if cached.cached_at_ms + CACHE_FALLBACK_TTL_MS <= u64::MAX {
            cached.cached_at_ms + CACHE_FALLBACK_TTL_MS
        } else {
            u64::MAX as int
        }) > now,
    }
}

pub fn cache_entry_is_valid(cached: &CachedArkFile, now: u64) -> (r: bool)
    ensures
        r == cache_valid(cached, now),
{
    match cached.expires_at_ms {
        Some(expires_at) => expires_at > now.saturating_add(CACHE_EXPIRY_SAFETY_MS),
        None => cached.cached_at_ms.saturating_add(CACHE_FALLBACK_TTL_MS) > now,
    }
}

/// Milliseconds since the epoch of an RFC 3339 time (a name for what `chrono`'s
/// `DateTime::parse_from_rfc3339` and `timestamp_millis` give); `None` for text it rejects.
pub uninterp spec fn rfc3339_millis(text: Seq<char>) -> Option<i64>;

/// `chrono::DateTime::parse_from_rfc3339(..).timestamp_millis()`.
#[verifier::external_body]
fn parse_rfc3339_millis(text: &str) -> (r: Option<i64>)
    ensures
        r == rfc3339_millis(text@),
{
    match chrono::DateTime::parse_from_rfc3339(text) {
        Ok(time) => Some(time.timestamp_millis()),
        Err(_) => None,
    }
}

/// A file's expiry in milliseconds: a number (or numeric text) below 10^10 counts seconds and
/// is scaled (saturating), larger ones count milliseconds; other text is read as an RFC 3339
/// time (not before the epoch).
pub open spec fn expiry_ms(value: JsonV) -> Option<u64> {
    let numeric = match value.as_u64() {
        Some(n) => Some(n),
        None => match value.as_str() {
            Some(s) => parse_u64(s),
            None => None,
        },
    };
    match numeric {
        Some(n) => Some(
            if n < 10_000_000_000 {
                if n * 1000 <= u64::MAX {
                    (n * 1000) as u64
                } else {
                    u64::MAX
                }
            } else {
                n
            },
        ),
        None => match value.as_str() {
            Some(s) => match rfc3339_millis(s) {
                Some(ms) => if ms >= 0 {
                    Some(ms as u64)
                } else {
                    None
                },
                None => None,
            },
            None => None,
        },
    }
}

pub fn parse_expiry_ms(value: &Json) -> (r: Option<u64>)
    ensures
        r == expiry_ms(value@),
{
    let numeric = match value.as_u64() {
        Some(n) => Some(n),
        None => match value.as_str() {
            Some(s) => parse_u64_exec(&chars_of(s.as_str())),
            None => None,
        },
    };
    match numeric {
        Some(n) => Some(
            if n < 10_000_000_000 {
                n * 1000
            } else {
                n
            },
        ),
        None => match value.as_str() {
            Some(s) => match parse_rfc3339_millis(s.as_str()) {
                Some(ms) => if ms >= 0 {
                    Some(ms as u64)
                } else {
                    None
                },
                None => None,
            },
            None => None,
        },
    }
}

// ---------------------------------------------------------------------------
// Rewriting messages
// ---------------------------------------------------------------------------

/// The outcome of preparing the images of a request.
pub struct RewriteReport {
    /// The rewritten messages; `None` when nothing changed.
    pub messages: Option<Vec<Json>>,
    pub candidates: usize,
    pub file_ids: usize,
    pub cache_hits: usize,
    pub base64_fallbacks: usize,
}

/// An inline image waiting to be resolved to a file id.
pub struct PendingImage {
    pub location: ImagePartLocation,
    pub data_url: String,
    /// The digest that identifies the data URL within this request.
    pub request_key: String,
    /// The file id an identical image of this request already resolved to.
    pub cached_file_id: Option<String>,
}

/// A request's images being replaced by file ids, one inline image at a time: the caller
/// resolves each pending image (uploading it, or reusing the file id the request already
/// has) and reports the outcome; images that cannot be uploaded fall back to compressed
/// Base64.
pub struct MessageRewrite {
    pub messages: Vec<Json>,
    pub locations: Vec<ImagePartLocation>,
    /// The location being resolved.
    pub position: usize,
    /// File ids by request key.
    pub request_cache: Vec<(String, String)>,
    pub file_ids: usize,
    pub cache_hits: usize,
    pub base64_fallbacks: usize,
    pub changed: bool,
}

/// The value stored under a key.
pub open spec fn cached_value(cache: Seq<(Seq<char>, Seq<char>)>, key: Seq<char>) -> Option<Seq<char>> {
    match crate::chat::provider_adapter::header_position(cache, key) {
        Some(i) => Some(cache[i].1),
        None => None,
    }
}

impl MessageRewrite {
    /// Counts never exceed the images handled so far.
    pub open spec fn well_formed(&self) -> bool {
        &&& self.position <= self.locations.len()
        &&& self.file_ids + self.base64_fallbacks <= self.position
        &&& self.cache_hits <= self.file_ids
    }

    pub fn start(messages: &[Json]) -> (r: Self)
        ensures
            r.well_formed(),
            views(r.messages@) == views(messages@),
            location_views(r.locations@) == image_locations(views(messages@), messages@.len()),
            r.position == 0,
            r.request_cache@.len() == 0,
            r.file_ids == 0 && r.cache_hits == 0 && r.base64_fallbacks == 0 && !r.changed,
    {
        let locations = inline_image_locations(messages);
        let mut copy: Vec<Json> = Vec::new();
        let mut i: usize = 0;
        while i < messages.len()
            invariant
                i <= messages.len(),
                copy.len() == i,
                forall|j: int| 0 <= j < i ==> (#[trigger] copy@[j])@ == messages@[j]@,
            decreases messages.len() - i,
        {
            copy.push(messages[i].copy());
            i += 1;
        }
        assert(views(copy@) =~= views(messages@));
        MessageRewrite {
            messages: copy,
            locations,
            position: 0,
            request_cache: Vec::new(),
            file_ids: 0,
            cache_hits: 0,
            base64_fallbacks: 0,
            changed: false,
        }
    }

    fn cached_file_id(&self, key: &str) -> (r: Option<String>)
        ensures
            match r {
                Some(id) => cached_value(crate::chat::provider_adapter::header_views(self.request_cache@), key@)
                    == Some(id@),
                None => cached_value(crate::chat::provider_adapter::header_views(self.request_cache@), key@)
                    is None,
            },
    {
        let ghost h = crate::chat::provider_adapter::header_views(self.request_cache@);
        let mut i: usize = 0;
        while i < self.request_cache.len()
            invariant
                i <= self.request_cache.len(),
                h == crate::chat::provider_adapter::header_views(self.request_cache@),
                crate::chat::provider_adapter::header_position(h.take(i as int), key@) is None,
            decreases self.request_cache.len() - i,
        {
            assert(h.take(i + 1).drop_last() =~= h.take(i as int));
            if str_eq(self.request_cache[i].0.as_str(), key) {
                proof {
                    lemma_position_prefix(h, key@, i + 1);
                }
                return Some(self.request_cache[i].1.clone());
            }
            i += 1;
        }
        assert(h.take(self.request_cache.len() as int) =~= h);
        None
    }

    /// The next inline image to resolve, skipping parts that no longer hold a URL; `None` when
    /// every image has been handled.
    pub fn next_image(&mut self) -> (r: Option<PendingImage>)
        requires
            old(self).well_formed(),
        ensures
            final(self).well_formed(),
            final(self).messages == old(self).messages,
            final(self).locations == old(self).locations,
            final(self).request_cache == old(self).request_cache,
            final(self).file_ids == old(self).file_ids,
            final(self).cache_hits == old(self).cache_hits,
            final(self).base64_fallbacks == old(self).base64_fallbacks,
            final(self).changed == old(self).changed,
            old(self).position <= final(self).position,
            forall|k: int|
                old(self).position <= k < final(self).position ==> image_url_of(
                    views(old(self).messages@),
                    old(self).locations@[k].message_index as int,
                    old(self).locations@[k].part_index as int,
                ) is None,
            match r {
                Some(p) => final(self).position < final(self).locations.len() && p.location
                    == final(self).locations@[final(self).position as int] && image_url_of(
                    views(final(self).messages@),
                    p.location.message_index as int,
                    p.location.part_index as int,
                ) == Some(p.data_url@) && p.request_key@ == blake3_hex(utf8(p.data_url@))
                    && match p.cached_file_id {
                    Some(id) => cached_value(
                        crate::chat::provider_adapter::header_views(final(self).request_cache@),
                        p.request_key@,
                    ) == Some(id@),
                    None => cached_value(
                        crate::chat::provider_adapter::header_views(final(self).request_cache@),
                        p.request_key@,
                    ) is None,
                },
                None => final(self).position == final(self).locations.len(),
            },
    {
        while self.position < self.locations.len()
            invariant
                self.well_formed(),
                self.messages == old(self).messages,
                self.locations == old(self).locations,
                self.request_cache == old(self).request_cache,
                self.file_ids == old(self).file_ids,
                self.cache_hits == old(self).cache_hits,
                self.base64_fallbacks == old(self).base64_fallbacks,
                self.changed == old(self).changed,
                old(self).position <= self.position,
                forall|k: int|
                    old(self).position <= k < self.position ==> image_url_of(
                        views(old(self).messages@),
                        old(self).locations@[k].message_index as int,
                        old(self).locations@[k].part_index as int,
                    ) is None,
            decreases self.locations.len() - self.position,
        {
            let location = self.locations[self.position];
            match image_url_at(self.messages.as_slice(), location) {
                Some(url) => {
                    let data_url = url.clone();
                    let key = request_key(data_url.as_str());
                    let cached = self.cached_file_id(key.as_str());
                    return Some(PendingImage { location, data_url, request_key: key, cached_file_id: cached });
                },
                None => {
                    self.position = self.position + 1;
                },
            }
        }
        None
    }

    /// Records the file id an image resolved to: the request remembers it, and the image part
    /// points to the file.
    pub fn resolved(&mut self, pending: &PendingImage, file_id: String, cache_hit: bool)
        requires
            old(self).well_formed(),
            old(self).position < old(self).locations.len(),
        ensures
            final(self).well_formed(),
            final(self).position == old(self).position + 1,
            final(self).locations == old(self).locations,
            crate::chat::provider_adapter::header_views(final(self).request_cache@)
                == crate::chat::provider_adapter::set_header(
                crate::chat::provider_adapter::header_views(old(self).request_cache@),
                pending.request_key@,
                file_id@,
            ),
            final(self).base64_fallbacks == old(self).base64_fallbacks,
            match with_image(
                views(old(self).messages@),
                pending.location.message_index as int,
                pending.location.part_index as int,
                file_id_image(file_id@),
            ) {
                Some(updated) => views(final(self).messages@) == updated && final(self).changed
                    && final(self).file_ids == old(self).file_ids + 1 && final(self).cache_hits
                    == old(self).cache_hits + (if cache_hit {
                    1int
                } else {
                    0
                }),
                None => final(self).messages@ == old(self).messages@ && final(self).changed
                    == old(self).changed && final(self).file_ids == old(self).file_ids
                    && final(self).cache_hits == old(self).cache_hits,
            },
    {
        crate::chat::provider_adapter::insert_header(
            &mut self.request_cache,
            pending.request_key.as_str(),
            file_id.clone(),
        );
        if replace_with_file_id(&mut self.messages, pending.location, file_id.as_str()) {
            self.changed = true;
            self.file_ids = self.file_ids + 1;
            if cache_hit {
                self.cache_hits = self.cache_hits + 1;
            }
        }
        self.position = self.position + 1;
    }

    /// Records that an image could not be uploaded: its compressed inline data (when it could
    /// be compressed) takes its place.
    pub fn failed(&mut self, pending: &PendingImage, compressed: Option<String>)
        requires
            old(self).well_formed(),
            old(self).position < old(self).locations.len(),
        ensures
            final(self).well_formed(),
            final(self).position == old(self).position + 1,
            final(self).locations == old(self).locations,
            final(self).request_cache == old(self).request_cache,
            final(self).file_ids == old(self).file_ids,
            final(self).cache_hits == old(self).cache_hits,
            final(self).base64_fallbacks == old(self).base64_fallbacks + 1,
            match compressed {
                Some(c) => match with_image(
                    views(old(self).messages@),
                    pending.location.message_index as int,
                    pending.location.part_index as int,
                    data_url_image(c@),
                ) {
                    Some(updated) => views(final(self).messages@) == updated && final(self).changed,
                    None => final(self).messages@ == old(self).messages@ && final(self).changed
                        == old(self).changed,
                },
                None => final(self).messages@ == old(self).messages@ && final(self).changed == old(
                    self,
                ).changed,
            },
    {
        if let Some(c) = compressed {
            if replace_with_data_url(&mut self.messages, pending.location, c) {
                self.changed = true;
            }
        }
        self.base64_fallbacks = self.base64_fallbacks + 1;
        self.position = self.position + 1;
    }

    /// The report: the messages when anything changed, and the counts.
    pub fn finish(self) -> (r: RewriteReport)
        requires
            self.well_formed(),
        ensures
            r.candidates == self.locations.len(),
            r.file_ids == self.file_ids,
            r.cache_hits == self.cache_hits,
            r.base64_fallbacks == self.base64_fallbacks,
            r.file_ids + r.base64_fallbacks <= r.candidates,
            r.cache_hits <= r.file_ids,
            match r.messages {
                Some(m) => self.changed && m == self.messages,
                None => !self.changed,
            },
    {
        let candidates = self.locations.len();
        RewriteReport {
            messages: if self.changed {
                Some(self.messages)
            } else {
                None
            },
            candidates,
            file_ids: self.file_ids,
            cache_hits: self.cache_hits,
            base64_fallbacks: self.base64_fallbacks,
        }
    }
}

proof fn lemma_position_prefix(h: Seq<(Seq<char>, Seq<char>)>, key: Seq<char>, n: int)
    requires
        0 <= n <= h.len(),
        crate::chat::provider_adapter::header_position(h.take(n), key) is Some,
    ensures
        crate::chat::provider_adapter::header_position(h, key)
            == crate::chat::provider_adapter::header_position(h.take(n), key),
    decreases h.len() - n,
{
    if n < h.len() {
        assert(h.take(n + 1).drop_last() =~= h.take(n));
        lemma_position_prefix(h, key, n + 1);
    } else {
        assert(h.take(n) =~= h);
    }
}

/// The first characters of a value, at most `max_chars`.
pub fn truncate(value: &str, max_chars: usize) -> (r: String)
    ensures
        r@ == value@.take(if value@.len() < max_chars { value@.len() as int } else { max_chars as int }),
{
    let v = crate::text::chars_of(value);
    let end = if v.len() < max_chars { v.len() } else { max_chars };
    let r = crate::text::string_from_range(&v, 0, end);
    assert(r@ =~= v@.take(end as int));
    r
}

/// The first twelve characters of an identifier, as logged.
pub fn short_value(value: &str) -> (r: String)
    ensures
        r@ == value@.take(if value@.len() < 12 { value@.len() as int } else { 12 }),
{
    truncate(value, 12)
}

/// The last component of a path (`Path::file_name`): the text after the last `/`, trailing
/// slashes ignored; none when that is empty or `..`.
pub open spec fn file_name_of(path: Seq<char>) -> Option<Seq<char>> {
    let p = crate::text::trim_end_char(path, '/');
    let name = p.skip(crate::storage::backup_plan::last_index_of(p, '/') + 1);
    if name.len() == 0 || name == ".."@ {
        None
    } else {
        Some(name)
    }
}

/// The file name an upload is sent with: the given name's last component (`image` when it
/// has none), or `image.<extension>` by media type when no name is given.
pub open spec fn upload_filename(filename: Option<Seq<char>>, mime_type: Seq<char>) -> Seq<char> {
    let given = match filename {
        Some(f) => if crate::text::trim(f).len() > 0 {
            Some(crate::text::trim(f))
        } else {
            None
        },
        None => None,
    };
    match given {
        Some(f) => match file_name_of(f) {
            Some(name) => name,
            None => "image"@,
        },
        None => if mime_type == "image/png"@ {
            "image.png"@
        } else if mime_type == "image/webp"@ {
            "image.webp"@
        } else if mime_type == "image/gif"@ {
            "image.gif"@
        } else {
            "image.jpg"@
        },
    }
}

pub fn normalized_filename(filename: Option<&str>, mime_type: &str) -> (r: String)
    ensures
        r@ == upload_filename(match filename { Some(f) => Some(f@), None => None }, mime_type@),
{
    if let Some(f) = filename {
        let t = trimmed(f);
        if t.as_str().unicode_len() > 0 {
            let p = crate::text::trim_end_matches_char(t.as_str(), '/');
            let v = chars_of(p.as_str());
            let mut start: usize = v.len();
            assert(v@.take(start as int) =~= v@);
            while start > 0 && v[start - 1] != '/'
                invariant
                    start <= v.len(),
                    crate::storage::backup_plan::last_index_of(v@, '/')
                        == crate::storage::backup_plan::last_index_of(v@.take(start as int), '/'),
                decreases start,
            {
                assert(v@.take(start as int).drop_last() =~= v@.take(start - 1));
                start -= 1;
            }
            proof {
                if start > 0 {
                    assert(v@.take(start as int).last() == '/');
                }
            }
            let name = crate::text::string_from_range(&v, start, v.len());
            assert(name@ =~= v@.skip(crate::storage::backup_plan::last_index_of(v@, '/') + 1));
            if name.as_str().unicode_len() == 0 || str_eq(name.as_str(), "..") {
                return "image".to_owned();
            }
            return name;
        }
    }
    if str_eq(mime_type, "image/png") {
        "image.png".to_owned()
    } else if str_eq(mime_type, "image/webp") {
        "image.webp".to_owned()
    } else if str_eq(mime_type, "image/gif") {
        "image.gif".to_owned()
    } else {
        "image.jpg".to_owned()
    }
}

// ---------------------------------------------------------------------------
// Waiting for an upload to become active
// ---------------------------------------------------------------------------

/// Seconds between two status queries of an uploaded file.
pub const FILES_POLL_INTERVAL_SECS: u64 = 2;

/// Seconds an uploaded file is given to become active.
pub const FILES_POLL_TIMEOUT_SECS: u64 = 300;

/// What to do with an uploaded file after reading its status.
#[derive(Debug, PartialEq, Eq)]
pub enum FileStatusStep {
    /// The file is active: its id can be used.
    Active,
    /// The Files API could not process the image.
    Failed(String),
    /// The file did not become active in time.
    TimedOut(String),
    /// Wait the poll interval, query the status again and decide again.
    Poll,
}

/// An upload response must name the file it created.
pub fn check_uploaded_file_id(file_id: &str) -> (r: Result<(), String>)
    ensures
        r is Ok <==> trim(file_id@).len() > 0,
        r matches Err(e) ==> e@ == "Files API upload response did not include a file id"@,
{
    if crate::text::is_blank(file_id) {
        Err("Files API upload response did not include a file id".to_owned())
    } else {
        Ok(())
    }
}

/// A file's status as compared: trimmed and in ASCII lower case.
pub open spec fn file_status(status: Seq<char>) -> Seq<char> {
    lower_seq(trim(status))
}

/// What a status read at a moment before or after the deadline calls for: an active file is
/// done, a failed one fails with the Files API's error (`error_json`, the error value as
/// JSON text; a JSON string "unknown error" when the answer had none), and any other status
/// times out after the deadline and is polled again before it.
pub open spec fn file_status_step_spec(
    status: Seq<char>,
    error_json: Option<Seq<char>>,
    file_id: Seq<char>,
    deadline_passed: bool,
) -> FileStatusStepV {
    if file_status(status) == "active"@ {
        FileStatusStepV::Active
    } else if file_status(status) == "failed"@ {
        FileStatusStepV::Failed(
            "Files API failed to process the image: "@ + match error_json {
                Some(e) => e,
                None => "\"unknown error\""@,
            },
        )
    } else if deadline_passed {
        FileStatusStepV::TimedOut(
            "Files API image "@ + file_id.take(if file_id.len() < 12 { file_id.len() as int } else { 12 })
                + " did not become active within 300 seconds"@,
        )
    } else {
        FileStatusStepV::Poll
    }
}

/// A [`FileStatusStep`] with its messages as character sequences.
pub enum FileStatusStepV {
    Active,
    Failed(Seq<char>),
    TimedOut(Seq<char>),
    Poll,
}

impl FileStatusStep {
    pub open spec fn view(self) -> FileStatusStepV {
        match self {
            FileStatusStep::Active => FileStatusStepV::Active,
            FileStatusStep::Failed(m) => FileStatusStepV::Failed(m@),
            FileStatusStep::TimedOut(m) => FileStatusStepV::TimedOut(m@),
            FileStatusStep::Poll => FileStatusStepV::Poll,
        }
    }
}

/// Decides what an uploaded file's status calls for (see [`file_status_step_spec`]).
pub fn file_status_step(
    status: &str,
    error_json: Option<&str>,
    file_id: &str,
    deadline_passed: bool,
) -> (r: FileStatusStep)
    ensures
        r.view() == file_status_step_spec(
            status@,
            match error_json {
                Some(e) => Some(e@),
                None => None,
            },
            file_id@,
            deadline_passed,
        ),
{
    let trimmed_status = trimmed(status);
    let normalized = to_ascii_lowercase(trimmed_status.as_str());
    if str_eq(normalized.as_str(), "active") {
        FileStatusStep::Active
    } else if str_eq(normalized.as_str(), "failed") {
        let mut message = "Files API failed to process the image: ".to_owned();
        match error_json {
            Some(e) => crate::text::push_str(&mut message, e),
            None => crate::text::push_str(&mut message, "\"unknown error\""),
        }
        FileStatusStep::Failed(message)
    } else if deadline_passed {
        let mut message = "Files API image ".to_owned();
        let short = short_value(file_id);
        crate::text::push_str(&mut message, short.as_str());
        crate::text::push_str(&mut message, " did not become active within 300 seconds");
        FileStatusStep::TimedOut(message)
    } else {
        FileStatusStep::Poll
    }
}

} // verus!
