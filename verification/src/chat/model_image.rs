//! Preparing stored or inline images for a model request: small images travel as they are,
//! large ones are re-encoded as JPEG (alpha flattened onto white) within a byte target.
use vstd::prelude::*;

use crate::chat::multimodal::volcengine_files::{decode_base64, standard_base64, standard_base64_decoded};
use crate::text::{chars_of, find_char, next_char, push_str, string_from_range};
use crate::tts::audio_cache::{push_utf8, utf8};
use crate::tts::audio_cache::{blake3_hex, blake3_hex_of};
use base64::Engine;
use image::{ImageDecoder, ImageFormat};

verus! {

/// Images at or below this many bytes are sent unchanged.
pub const MODEL_IMAGE_TARGET_BYTES: usize = 4194304;

/// The compressed-image cache is pruned down to this many bytes.
pub const MODEL_IMAGE_CACHE_MAX_BYTES: u64 = 268435456;

/// The JPEG qualities tried, best first.
pub open spec fn jpeg_qualities() -> Seq<u8> {
    seq![82u8, 70u8, 58u8]
}

/// An image's container format, as far as the announced media type depends on it.
#[derive(Clone, Copy, Debug, PartialEq, Eq, Structural)]
pub enum ImageKind {
    Png,
    Jpeg,
    Gif,
    WebP,
    /// Any other format the decoder recognises.
    Other,
}

/// A data URL and the media type it declares.
pub struct ModelImagePayload {
    pub data_url: String,
    pub mime_type: String,
}

/// Why an image could not be prepared.
#[derive(Clone, Copy, Debug, PartialEq, Eq, Structural)]
pub enum ModelImageError {
    /// The bytes start with no image signature the decoder knows.
    UnknownFormat,
    /// The image header could not be read.
    Unreadable,
    /// The image has no pixels, or more than the limit (`max_pixels`) allows.
    PixelLimit { width: u32, height: u32, pixels: u64, max_pixels: u64 },
    /// The pixels could not be decoded.
    Undecodable,
    /// The JPEG encoder refused the pixels.
    Unencodable,
    /// An inline attachment's Base64 text did not decode.
    InvalidInlineData,
}

// ---------------------------------------------------------------------------
// What the image and base64 crates compute
// ---------------------------------------------------------------------------

/// The format `image::guess_format` recognises from the leading bytes.
pub uninterp spec fn guessed_image_kind(bytes: Seq<u8>) -> Option<ImageKind>;

/// The width and height that the decoder of the format guessed from the leading bytes reads
/// from the header.
pub uninterp spec fn image_dimensions(bytes: Seq<u8>) -> Option<(u32, u32)>;

/// The decoded pixels, turned upright by the EXIF orientation, as 8-bit RGBA rows.
pub uninterp spec fn upright_rgba(bytes: Seq<u8>) -> Option<(u32, u32, Seq<u8>)>;

/// The JPEG file that `image`'s encoder writes for 8-bit RGB rows at a quality.
pub uninterp spec fn jpeg_encoded(rgb: Seq<u8>, width: u32, height: u32, quality: u8) -> Option<
    Seq<u8>,
>;

/// `image::guess_format`, with the recognised format mapped to its kind.
#[verifier::external_body]
fn guess_image_kind(bytes: &[u8]) -> (r: Option<ImageKind>)
    ensures
        r == guessed_image_kind(bytes@),
{
    match image::guess_format(bytes) {
        Ok(ImageFormat::Png) => Some(ImageKind::Png),
        Ok(ImageFormat::Jpeg) => Some(ImageKind::Jpeg),
        Ok(ImageFormat::Gif) => Some(ImageKind::Gif),
        Ok(ImageFormat::WebP) => Some(ImageKind::WebP),
        Ok(_) => Some(ImageKind::Other),
        Err(_) => None,
    }
}

/// `image::ImageReader::new(..).with_guessed_format()` then `into_dimensions()`.
#[verifier::external_body]
fn read_dimensions(bytes: &[u8]) -> (r: Option<(u32, u32)>)
    ensures
        r == image_dimensions(bytes@),
{
    let reader = image::ImageReader::new(std::io::Cursor::new(bytes)).with_guessed_format().ok()?;
    reader.into_dimensions().ok()
}

/// Decodes with the decoder of the format guessed from the leading bytes, applies the orientation the decoder reports
/// (none when it reports an error) and converts to 8-bit RGBA (`DynamicImage::into_rgba8`),
/// whose buffer holds exactly four bytes per pixel.
#[verifier::external_body]
fn decode_upright_rgba(bytes: &[u8]) -> (r: Option<(u32, u32, Vec<u8>)>)
    ensures
        match r {
            Some((w, h, raw)) => upright_rgba(bytes@) == Some((w, h, raw@)) && raw.len() == 4 * (w
                * h),
            None => upright_rgba(bytes@) is None,
        },
{
    let reader = image::ImageReader::new(std::io::Cursor::new(bytes)).with_guessed_format().ok()?;
    let mut decoder = reader.into_decoder().ok()?;
    let orientation = decoder.orientation().unwrap_or(image::metadata::Orientation::NoTransforms);
    let mut image = image::DynamicImage::from_decoder(decoder).ok()?;
    image.apply_orientation(orientation);
    let rgba = image.into_rgba8();
    Some((rgba.width(), rgba.height(), rgba.into_raw()))
}

/// `JpegEncoder::new_with_quality(..).encode_image` on the RGB rows.
#[verifier::external_body]
fn encode_jpeg(rgb: &[u8], width: u32, height: u32, quality: u8) -> (r: Option<Vec<u8>>)
    requires
        rgb.len() == 3 * (width * height),
    ensures
        match r {
            Some(bytes) => jpeg_encoded(rgb@, width, height, quality) == Some(bytes@),
            None => jpeg_encoded(rgb@, width, height, quality) is None,
        },
{
    let image = image::ImageBuffer::<image::Rgb<u8>, &[u8]>::from_raw(width, height, rgb)?;
    let mut bytes = Vec::new();
    image::codecs::jpeg::JpegEncoder::new_with_quality(&mut bytes, quality)
        .encode_image(&image).ok()?;
    Some(bytes)
}

/// `base64::engine::general_purpose::STANDARD.encode`: the padded standard Base64 text of the
/// bytes.
#[verifier::external_body]
fn encode_base64(bytes: &[u8]) -> (r: String)
    ensures
        r@ == standard_base64(bytes@),
{
    base64::engine::general_purpose::STANDARD.encode(bytes)
}

// ---------------------------------------------------------------------------
// Payloads
// ---------------------------------------------------------------------------

/// The media type announced for a format; formats without one are `application/octet-stream`.
pub open spec fn image_mime(kind: ImageKind) -> Seq<char> {
    match kind {
        ImageKind::Jpeg => "image/jpeg"@,
        ImageKind::Png => "image/png"@,
        ImageKind::Gif => "image/gif"@,
        ImageKind::WebP => "image/webp"@,
        _ => "application/octet-stream"@,
    }
}

pub fn image_mime_type(kind: ImageKind) -> (r: &'static str)
    ensures
        r@ == image_mime(kind),
{
    match kind {
        ImageKind::Jpeg => "image/jpeg",
        ImageKind::Png => "image/png",
        ImageKind::Gif => "image/gif",
        ImageKind::WebP => "image/webp",
        _ => "application/octet-stream",
    }
}

/// `data:<type>;base64,<text>`.
pub open spec fn data_url(mime: Seq<char>, bytes: Seq<u8>) -> Seq<char> {
    "data:"@ + mime + ";base64,"@ + standard_base64(bytes)
}

pub fn data_url_payload(bytes: &[u8], mime_type: &str) -> (r: ModelImagePayload)
    ensures
        r.data_url@ == data_url(mime_type@, bytes@),
        r.mime_type@ == mime_type@,
{
    let mut url = String::new();
    push_str(&mut url, "data:");
    push_str(&mut url, mime_type);
    push_str(&mut url, ";base64,");
    let encoded = encode_base64(bytes);
    push_str(&mut url, encoded.as_str());
    let mut mime = String::new();
    push_str(&mut mime, mime_type);
    proof {
        assert(mime@ =~= mime_type@);
    }
    ModelImagePayload { data_url: url, mime_type: mime }
}

// ---------------------------------------------------------------------------
// Flattening transparency
// ---------------------------------------------------------------------------

/// A colour channel composited over white: `(v * a + 255 * (255 - a) + 127) / 255`.
pub open spec fn over_white(value: u8, alpha: u8) -> int {
    (value * alpha + 255 * (255 - alpha) + 127) / 255
}

/// RGB rows from RGBA rows, each channel composited over white by its pixel's alpha.
pub open spec fn flattened(rgba: Seq<u8>, pixels: nat) -> Seq<u8> {
    Seq::new(
        3 * pixels,
        |k: int| over_white(rgba[4 * (k / 3) + k % 3], rgba[4 * (k / 3) + 3]) as u8,
    )
}

proof fn lemma_over_white_bounds(value: u8, alpha: u8)
    ensures
        0 <= over_white(value, alpha) <= 255,
        value * alpha + 255 * (255 - alpha) + 127 <= 65152,
{
    assert(value * alpha <= 255 * alpha) by (nonlinear_arith)
        requires
            value <= 255,
            alpha >= 0,
    ;
}

/// An opaque pixel keeps its colour when flattened onto white.
pub proof fn law_opaque_pixels_keep_colour(value: u8)
    ensures
        over_white(value, 255) == value,
{
    assert((value * 255 + 127) / 255 == value) by (nonlinear_arith)
        requires
            0 <= value <= 255,
    ;
}

/// A fully transparent pixel becomes white.
pub proof fn law_transparent_pixels_turn_white(value: u8)
    ensures
        over_white(value, 0) == 255,
{
}

pub fn flatten_rgba_onto_white(rgba: &Vec<u8>, width: u32, height: u32) -> (r: Vec<u8>)
    requires
        rgba.len() == 4 * (width * height),
    ensures
        r@ == flattened(rgba@, (width * height) as nat),
{
    let pixel_count: usize = rgba.len() / 4;
    proof {
        let p = width * height;
        assert(rgba.len() == 4 * p);
        assert(pixel_count == p);
    }
    let mut out: Vec<u8> = Vec::with_capacity(pixel_count * 3);
    let mut index: usize = 0;
    while index < pixel_count
        invariant
            pixel_count == width * height,
            rgba.len() == 4 * pixel_count,
            index <= pixel_count,
            out.len() == 3 * index,
            forall|k: int|
                0 <= k < 3 * index ==> #[trigger] out@[k] == flattened(
                    rgba@,
                    pixel_count as nat,
                )[k],
        decreases pixel_count - index,
    {
        let source = index * 4;
        let alpha = rgba[source + 3];
        let mut channel: usize = 0;
        while channel < 3
            invariant
                pixel_count == width * height,
                rgba.len() == 4 * pixel_count,
                index < pixel_count,
                source == index * 4,
                alpha == rgba@[source + 3],
                channel <= 3,
                out.len() == 3 * index + channel,
                forall|k: int|
                    0 <= k < 3 * index + channel ==> #[trigger] out@[k] == flattened(
                        rgba@,
                        pixel_count as nat,
                    )[k],
            decreases 3 - channel,
        {
            let value = rgba[source + channel];
            proof {
                lemma_over_white_bounds(value, alpha);
            }
            let blended: u16 = ((value as u16) * (alpha as u16) + 255 * (255 - alpha as u16) + 127)
                / 255;
            proof {
                let k = 3 * index + channel;
                assert(k / 3 == index as int && k % 3 == channel as int);
                assert(blended == over_white(value, alpha));
            }
            out.push(blended as u8);
            channel = channel + 1;
        }
        index = index + 1;
    }
    out
}

// ---------------------------------------------------------------------------
// Re-encoding as JPEG
// ---------------------------------------------------------------------------

/// A JPEG file and the quality it was written at.
pub struct EncodedJpeg {
    pub bytes: Vec<u8>,
    pub quality: u8,
}

/// Tries the qualities in order: the first file within the byte target wins; when none fits,
/// the smallest file (the earliest among equals) does. Any refusal of the encoder ends the search.
pub open spec fn jpeg_search(
    rgb: Seq<u8>,
    width: u32,
    height: u32,
    qualities: Seq<u8>,
    smallest: Option<(Seq<u8>, u8)>,
) -> Result<(Seq<u8>, u8), ModelImageError>
    decreases qualities.len(),
{
    if qualities.len() == 0 {
        match smallest {
            Some(best) => Ok(best),
            None => Err(ModelImageError::Unencodable),
        }
    } else {
        let quality = qualities[0];
        match jpeg_encoded(rgb, width, height, quality) {
            None => Err(ModelImageError::Unencodable),
            Some(bytes) => if bytes.len() <= MODEL_IMAGE_TARGET_BYTES {
                Ok((bytes, quality))
            } else {
                let next = match smallest {
                    Some(best) => if bytes.len() < best.0.len() {
                        Some((bytes, quality))
                    } else {
                        smallest
                    },
                    None => Some((bytes, quality)),
                };
                jpeg_search(rgb, width, height, qualities.drop_first(), next)
            },
        }
    }
}

/// The JPEG a large image is re-encoded to: the header is read first and an image without
/// pixels, or with more than `max_pixels`, is refused before its pixels are decoded.
pub open spec fn model_jpeg(source: Seq<u8>, max_pixels: u64) -> Result<(Seq<u8>, u8), ModelImageError> {
    match image_dimensions(source) {
        None => Err(ModelImageError::Unreadable),
        Some((width, height)) => {
            let pixels = width * height;
            if width == 0 || height == 0 || pixels > max_pixels {
                Err(ModelImageError::PixelLimit { width, height, pixels: pixels as u64, max_pixels })
            } else {
                match upright_rgba(source) {
                    None => Err(ModelImageError::Undecodable),
                    Some((w, h, rgba)) => jpeg_search(
                        flattened(rgba, (w * h) as nat),
                        w,
                        h,
                        jpeg_qualities(),
                        None,
                    ),
                }
            }
        },
    }
}

pub open spec fn encoded_view(e: Option<EncodedJpeg>) -> Option<(Seq<u8>, u8)> {
    match e {
        Some(e) => Some((e.bytes@, e.quality)),
        None => None,
    }
}

pub fn encode_model_jpeg(source: &[u8], max_pixels: u64) -> (r: Result<EncodedJpeg, ModelImageError>)
    ensures
        match r {
            Ok(e) => model_jpeg(source@, max_pixels) == Ok::<(Seq<u8>, u8), ModelImageError>(
                (e.bytes@, e.quality),
            ),
            Err(e) => model_jpeg(source@, max_pixels) == Err::<(Seq<u8>, u8), ModelImageError>(
                e,
            ),
        },
{
    let (width, height) = match read_dimensions(source) {
        Some(d) => d,
        None => return Err(ModelImageError::Unreadable),
    };
    proof {
        assert((width as int) * (height as int) <= 0xffff_ffff_ffff_ffff) by (nonlinear_arith)
            requires
                width <= 0xffff_ffff,
                height <= 0xffff_ffff,
        ;
    }
    let pixels: u64 = (width as u64) * (height as u64);
    if width == 0 || height == 0 || pixels > max_pixels {
        return Err(ModelImageError::PixelLimit { width, height, pixels, max_pixels });
    }
    let (w, h, rgba) = match decode_upright_rgba(source) {
        Some(decoded) => decoded,
        None => return Err(ModelImageError::Undecodable),
    };
    let rgb = flatten_rgba_onto_white(&rgba, w, h);
    let qualities: Vec<u8> = vec![82u8, 70u8, 58u8];
    assert(qualities@ =~= jpeg_qualities());
    let ghost whole = jpeg_search(rgb@, w, h, jpeg_qualities(), None);
    assert(model_jpeg(source@, max_pixels) == whole);
    assert(qualities@.skip(0) =~= qualities@);
    let mut smallest: Option<EncodedJpeg> = None;
    let mut i: usize = 0;
    while i < qualities.len()
        invariant
            qualities@ == jpeg_qualities(),
            i <= qualities.len(),
            rgb.len() == 3 * (w * h),
            whole == jpeg_search(rgb@, w, h, qualities@.skip(i as int), encoded_view(smallest)),
            model_jpeg(source@, max_pixels) == whole,
            i > 0 ==> smallest is Some,
        decreases qualities.len() - i,
    {
        let quality = qualities[i];
        assert(qualities@.skip(i as int).drop_first() =~= qualities@.skip(i as int + 1));
        let bytes = match encode_jpeg(rgb.as_slice(), w, h, quality) {
            Some(bytes) => bytes,
            None => return Err(ModelImageError::Unencodable),
        };
        if bytes.len() <= MODEL_IMAGE_TARGET_BYTES {
            return Ok(EncodedJpeg { bytes, quality });
        }
        let replace = match &smallest {
            Some(best) => bytes.len() < best.bytes.len(),
            None => true,
        };
        if replace {
            smallest = Some(EncodedJpeg { bytes, quality });
        }
        i = i + 1;
    }
    assert(qualities@.skip(i as int) =~= Seq::<u8>::empty());
    match smallest {
        Some(best) => Ok(best),
        None => Err(ModelImageError::Unencodable),
    }
}

// ---------------------------------------------------------------------------
// Preparing a payload
// ---------------------------------------------------------------------------

/// The compressed-image cache key: BLAKE3 of the encoding profile followed by the source bytes.
pub open spec fn model_image_cache_key_of(bytes: Seq<u8>) -> Seq<char> {
    blake3_hex(utf8("jpeg-v1-target-4m-q82-70-58"@) + bytes)
}

pub fn model_image_cache_key(bytes: &[u8]) -> (r: String)
    ensures
        r@ == model_image_cache_key_of(bytes@),
{
    let mut material: Vec<u8> = Vec::new();
    push_utf8(&mut material, "jpeg-v1-target-4m-q82-70-58");
    let mut i: usize = 0;
    let ghost start = material@;
    while i < bytes.len()
        invariant
            i <= bytes.len(),
            material@ == start + bytes@.take(i as int),
        decreases bytes.len() - i,
    {
        material.push(bytes[i]);
        i = i + 1;
        assert(material@ =~= start + bytes@.take(i as int));
    }
    assert(bytes@.take(bytes@.len() as int) =~= bytes@);
    blake3_hex_of(material.as_slice())
}

/// What to do with an image's bytes.
pub enum ModelImagePlan {
    /// Send this payload.
    Ready(ModelImagePayload),
    /// The image is over the byte target: look for a cached JPEG under `cache_key`, else
    /// re-encode it.
    Compress { kind: ImageKind, cache_key: String },
}

/// The format is detected first; an image within the byte target is sent as it is.
pub fn plan_model_image(source: &[u8]) -> (r: Result<ModelImagePlan, ModelImageError>)
    ensures
        match guessed_image_kind(source@) {
            None => r matches Err(e) && e == ModelImageError::UnknownFormat,
            Some(kind) => if source.len() <= MODEL_IMAGE_TARGET_BYTES {
                r matches Ok(ModelImagePlan::Ready(p)) && p.data_url@ == data_url(
                    image_mime(kind),
                    source@,
                ) && p.mime_type@ == image_mime(kind)
            } else {
                r matches Ok(ModelImagePlan::Compress { kind: k, cache_key }) && k == kind
                    && cache_key@ == model_image_cache_key_of(source@)
            },
        },
{
    let kind = match guess_image_kind(source) {
        Some(kind) => kind,
        None => return Err(ModelImageError::UnknownFormat),
    };
    if source.len() <= MODEL_IMAGE_TARGET_BYTES {
        return Ok(ModelImagePlan::Ready(data_url_payload(source, image_mime_type(kind))));
    }
    Ok(ModelImagePlan::Compress { kind, cache_key: model_image_cache_key(source) })
}

/// A cached JPEG is used when the file is not empty.
pub fn cached_model_image_payload(cached: &[u8]) -> (r: Option<ModelImagePayload>)
    ensures
        match r {
            Some(p) => cached.len() > 0 && p.data_url@ == data_url("image/jpeg"@, cached@)
                && p.mime_type@ == "image/jpeg"@,
            None => cached.len() == 0,
        },
{
    if cached.len() == 0 {
        None
    } else {
        Some(data_url_payload(cached, "image/jpeg"))
    }
}

/// A re-encoded image: the payload to send, and the JPEG to cache when it is the smaller file.
pub struct CompressedModelImage {
    pub payload: ModelImagePayload,
    pub cache_bytes: Option<Vec<u8>>,
    pub quality: u8,
}

impl CompressedModelImage {
    pub open spec fn cache_view(self) -> Option<Seq<u8>> {
        match self.cache_bytes {
            Some(b) => Some(b@),
            None => None,
        }
    }
}

/// Re-encodes an image over the byte target. A JPEG no smaller than the source is dropped
/// and the source is sent as it is (with the media type of `kind`); otherwise the JPEG is sent
/// and offered for caching.
pub fn compress_model_image(source: &[u8], kind: ImageKind, max_pixels: u64) -> (r: Result<
    CompressedModelImage,
    ModelImageError,
>)
    ensures
        match model_jpeg(source@, max_pixels) {
            Err(e) => r matches Err(e2) && e2 == e,
            Ok((jpeg, quality)) => r matches Ok(c) && c.quality == quality && (if jpeg.len()
                >= source.len() {
                &&& c.payload.data_url@ == data_url(image_mime(kind), source@)
                &&& c.payload.mime_type@ == image_mime(kind)
                &&& c.cache_bytes is None
            } else {
                &&& c.payload.data_url@ == data_url("image/jpeg"@, jpeg)
                &&& c.payload.mime_type@ == "image/jpeg"@
                &&& c.cache_view() == Some(jpeg)
            }),
        },
{
    let encoded = match encode_model_jpeg(source, max_pixels) {
        Ok(encoded) => encoded,
        Err(e) => return Err(e),
    };
    if encoded.bytes.len() >= source.len() {
        let payload = data_url_payload(source, image_mime_type(kind));
        return Ok(CompressedModelImage { payload, cache_bytes: None, quality: encoded.quality });
    }
    let payload = data_url_payload(encoded.bytes.as_slice(), "image/jpeg");
    Ok(CompressedModelImage { payload, cache_bytes: Some(encoded.bytes), quality: encoded.quality })
}

/// The Base64 text of an inline attachment: what follows the first comma, or all of it.
pub open spec fn inline_base64_text(data_url: Seq<char>) -> Seq<char> {
    let comma = next_char(data_url, ',', 0);
    if comma < data_url.len() {
        data_url.skip(comma + 1)
    } else {
        data_url
    }
}

pub fn inline_model_image_bytes(data_url: &str) -> (r: Result<Vec<u8>, ModelImageError>)
    ensures
        match standard_base64_decoded(inline_base64_text(data_url@)) {
            Some(bytes) => r matches Ok(b) && b@ == bytes,
            None => r matches Err(e) && e == ModelImageError::InvalidInlineData,
        },
{
    let chars = chars_of(data_url);
    let comma = find_char(&chars, ',', 0);
    let text = if comma < chars.len() {
        string_from_range(&chars, comma + 1, chars.len())
    } else {
        string_from_range(&chars, 0, chars.len())
    };
    proof {
        assert(chars@.subrange(0, chars@.len() as int) =~= chars@);
        assert(chars@.subrange(comma + 1, chars@.len() as int) =~= chars@.skip(comma + 1));
    }
    match decode_base64(text.as_str()) {
        Ok(bytes) => Ok(bytes),
        Err(_) => Err(ModelImageError::InvalidInlineData),
    }
}

// ---------------------------------------------------------------------------
// Cache pruning
// ---------------------------------------------------------------------------

/// The sum of cached file sizes, saturating at `u64::MAX`.
pub open spec fn saturating_total(sizes: Seq<u64>) -> u64
    decreases sizes.len(),
{
    if sizes.len() == 0 {
        0
    } else {
        let rest = saturating_total(sizes.drop_last());
        let sum = rest + sizes.last();
        if sum > u64::MAX {
            u64::MAX
        } else {
            sum as u64
        }
    }
}

pub fn cache_total_bytes(sizes: &Vec<u64>) -> (r: u64)
    ensures
        r == saturating_total(sizes@),
{
    let mut total: u64 = 0;
    let mut i: usize = 0;
    while i < sizes.len()
        invariant
            i <= sizes.len(),
            total == saturating_total(sizes@.take(i as int)),
        decreases sizes.len() - i,
    {
        assert(sizes@.take(i as int + 1).drop_last() =~= sizes@.take(i as int));
        total = total.saturating_add(sizes[i]);
        i = i + 1;
    }
    assert(sizes@.take(sizes@.len() as int) =~= sizes@);
    total
}

/// What pruning does with the next-oldest cached file.
#[derive(Clone, Copy, Debug, PartialEq, Eq, Structural)]
pub enum PruneStep {
    /// The cache is within its budget: stop.
    Done,
    /// The file was just written: leave it.
    Keep,
    /// Remove the file; on success its size leaves the total.
    Remove,
}

pub fn prune_step(total_bytes: u64, is_current: bool) -> (r: PruneStep)
    ensures
        r == (if total_bytes <= MODEL_IMAGE_CACHE_MAX_BYTES {
            PruneStep::Done
        } else if is_current {
            PruneStep::Keep
        } else {
            PruneStep::Remove
        }),
{
    if total_bytes <= MODEL_IMAGE_CACHE_MAX_BYTES {
        PruneStep::Done
    } else if is_current {
        PruneStep::Keep
    } else {
        PruneStep::Remove
    }
}

} // verus!
