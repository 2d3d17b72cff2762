//! Images of chats exported to and imported from JSONL: inline `data:` URLs in the
//! `extra.media` array of an entry (and the older singular `extra.image`).
use vstd::prelude::*;

use crate::chat::types::ImageAttachment;
use crate::json::{opt_view, views, Json, JsonNumber, JsonV};
use crate::text::{
    chars_of, ends_with, ends_with_exec, eq_ignore_ascii_case, find_char, lemma_next_char, lower_seq,
    next_char, starts_with, starts_with_exec, str_eq, string_from_range, to_ascii_lowercase, trim,
    trimmed,
};

verus! {

/// An inline image read from an exported entry.
#[derive(Debug, Clone, PartialEq, Eq)]
pub struct InlineImageSource {
    pub data_url: String,
    pub filename: Option<String>,
    pub width: Option<u32>,
    pub height: Option<u32>,
}

pub struct InlineImageSourceV {
    pub data_url: Seq<char>,
    pub filename: Option<Seq<char>>,
    pub width: Option<u32>,
    pub height: Option<u32>,
}

pub open spec fn opt_string_view(o: Option<String>) -> Option<Seq<char>> {
    match o {
        Some(s) => Some(s@),
        None => None,
    }
}

impl View for InlineImageSource {
    type V = InlineImageSourceV;

    open spec fn view(&self) -> InlineImageSourceV {
        InlineImageSourceV {
            data_url: self.data_url@,
            filename: opt_string_view(self.filename),
            width: self.width,
            height: self.height,
        }
    }
}

pub open spec fn source_views(v: Seq<InlineImageSource>) -> Seq<InlineImageSourceV> {
    Seq::new(v.len(), |i: int| v[i]@)
}

// ---------------------------------------------------------------------------
// Data URLs
// ---------------------------------------------------------------------------

/// The header of a `data:` URL: the text between `data:` and the first comma.
pub open spec fn data_url_header(v: Seq<char>) -> Option<Seq<char>> {
    if starts_with(v, "data:"@) {
        let comma = next_char(v, ',', 5);
        if comma < v.len() {
            Some(v.subrange(5, comma))
        } else {
            None
        }
    } else {
        None
    }
}

/// The media type of a header: the text before the first `;`.
pub open spec fn media_type_part(h: Seq<char>) -> Seq<char> {
    h.take(next_char(h, ';', 0))
}

/// The parameter of a header that starts at `i` (just after a `;`).
pub open spec fn parameter_at(h: Seq<char>, i: int) -> Seq<char> {
    h.subrange(i, next_char(h, ';', i))
}

pub open spec fn is_base64_parameter(p: Seq<char>) -> bool {
    lower_seq(trim(p)) == "base64"@
}

/// Some parameter of the header is `base64` (any ASCII case, surrounding whitespace ignored).
pub open spec fn declares_base64(h: Seq<char>) -> bool {
    exists|i: int| 1 <= i <= h.len() && h[i - 1] == ';' && is_base64_parameter(#[trigger] parameter_at(h, i))
}

pub open spec fn canonical_image_mime(mime: Seq<char>) -> Seq<char> {
    if mime == "image/jpg"@ || mime == "image/pjpeg"@ {
        "image/jpeg"@
    } else if mime == "image/x-png"@ {
        "image/png"@
    } else {
        mime
    }
}

/// The image type of a Base64 `data:` URL, lower-cased and canonical.
pub open spec fn data_url_image_mime(v: Seq<char>) -> Option<Seq<char>> {
    match data_url_header(v) {
        Some(h) => {
            let mime = lower_seq(trim(media_type_part(h)));
            if declares_base64(h) && starts_with(mime, "image/"@) {
                Some(canonical_image_mime(mime))
            } else {
                None
            }
        },
        None => None,
    }
}

fn copy_range(v: &Vec<char>, from: usize, to: usize) -> (r: Vec<char>)
    requires
        from <= to <= v.len(),
    ensures
        r@ == v@.subrange(from as int, to as int),
{
    let mut r: Vec<char> = Vec::new();
    let mut i: usize = from;
    while i < to
        invariant
            from <= i <= to <= v.len(),
            r@ == v@.subrange(from as int, i as int),
        decreases to - i,
    {
        r.push(v[i]);
        i += 1;
        assert(r@ =~= v@.subrange(from as int, i as int));
    }
    r
}

fn has_base64_parameter(h: &Vec<char>) -> (r: bool)
    ensures
        r == declares_base64(h@),
{
    proof {
        reveal_strlit("base64");
        lemma_next_char(h@, ';', 0);
    }
    let first = find_char(h, ';', 0);
    if first == h.len() {
        assert forall|i: int| 1 <= i <= h@.len() && h@[i - 1] == ';' implies !is_base64_parameter(
            #[trigger] parameter_at(h@, i),
        ) by {}
        return false;
    }
    let mut start: usize = first + 1;
    loop
        invariant
            1 <= start <= h.len(),
            h@[start - 1] == ';',
            forall|i: int|
                1 <= i < start && h@[i - 1] == ';' ==> !is_base64_parameter(#[trigger] parameter_at(h@, i)),
        decreases h.len() - start,
    {
        proof {
            lemma_next_char(h@, ';', start as int);
            reveal_strlit("base64");
            assert(lower_seq("base64"@) =~= "base64"@);
        }
        let end = find_char(h, ';', start);
        let part = string_from_range(h, start, end);
        let t = trimmed(part.as_str());
        if eq_ignore_ascii_case(t.as_str(), "base64") {
            assert(is_base64_parameter(parameter_at(h@, start as int)));
            return true;
        }
        if end == h.len() {
            assert forall|i: int| 1 <= i <= h@.len() && h@[i - 1] == ';' implies !is_base64_parameter(
                #[trigger] parameter_at(h@, i),
            ) by {
                if i > start {
                    assert(h@[i - 1] != ';');
                }
            }
            return false;
        }
        assert forall|i: int| 1 <= i < end + 1 && h@[i - 1] == ';' implies !is_base64_parameter(
            #[trigger] parameter_at(h@, i),
        ) by {
            if i > start {
                assert(h@[i - 1] != ';');
            }
        }
        start = end + 1;
    }
}

/// The image type of a Base64 `data:` URL (`image/jpg`, `image/pjpeg` and `image/x-png` read as
/// their canonical names); `None` for anything else.
pub fn image_mime_from_data_url(value: &str) -> (r: Option<String>)
    ensures
        opt_string_view(r) == data_url_image_mime(value@),
{
    proof {
        reveal_strlit("data:");
        reveal_strlit("image/");
    }
    let v = chars_of(value);
    if !starts_with_exec(&v, &chars_of("data:")) {
        return None;
    }
    proof {
        lemma_next_char(v@, ',', 5);
    }
    let comma = find_char(&v, ',', 5);
    if comma == v.len() {
        return None;
    }
    let header = copy_range(&v, 5, comma);
    proof {
        lemma_next_char(header@, ';', 0);
    }
    let semi = find_char(&header, ';', 0);
    assert(header@.subrange(0, semi as int) =~= media_type_part(header@));
    let media_type = string_from_range(&header, 0, semi);
    let mime = to_ascii_lowercase(trimmed(media_type.as_str()).as_str());
    let is_base64 = has_base64_parameter(&header);
    if !is_base64 || !starts_with_exec(&chars_of(mime.as_str()), &chars_of("image/")) {
        return None;
    }
    if str_eq(mime.as_str(), "image/jpg") || str_eq(mime.as_str(), "image/pjpeg") {
        Some("image/jpeg".to_owned())
    } else if str_eq(mime.as_str(), "image/x-png") {
        Some("image/png".to_owned())
    } else {
        Some(mime)
    }
}

/// The type an image has in the attachment store: by the stored file's extension, else the
/// type it came with.
pub open spec fn stored_mime(path: Seq<char>, fallback: Seq<char>) -> Seq<char> {
    let lower = lower_seq(path);
    if ends_with(lower, ".webp"@) {
        "image/webp"@
    } else if ends_with(lower, ".png"@) {
        "image/png"@
    } else if ends_with(lower, ".jpg"@) || ends_with(lower, ".jpeg"@) {
        "image/jpeg"@
    } else {
        fallback
    }
}

pub fn stored_image_mime(storage_path: &str, fallback: &str) -> (r: String)
    ensures
        r@ == stored_mime(storage_path@, fallback@),
{
    let lower = chars_of(to_ascii_lowercase(storage_path).as_str());
    if ends_with_exec(&lower, &chars_of(".webp")) {
        "image/webp".to_owned()
    } else if ends_with_exec(&lower, &chars_of(".png")) {
        "image/png".to_owned()
    } else if ends_with_exec(&lower, &chars_of(".jpg")) || ends_with_exec(&lower, &chars_of(".jpeg")) {
        "image/jpeg".to_owned()
    } else {
        fallback.to_owned()
    }
}

// ---------------------------------------------------------------------------
// Export
// ---------------------------------------------------------------------------

pub open spec fn opt_u32_json(key: Seq<char>, v: Option<u32>) -> Seq<(Seq<char>, JsonV)> {
    match v {
        Some(n) => seq![(key, JsonV::Number(JsonNumber::PosInt(n as u64)))],
        None => Seq::empty(),
    }
}

/// The media item an exported image becomes.
pub open spec fn media_item(attachment: ImageAttachment, data_url: Seq<char>) -> JsonV {
    JsonV::Object(
        seq![
            ("url"@, JsonV::Str(data_url)),
            ("type"@, JsonV::Str("image"@)),
            ("source"@, JsonV::Str("upload"@)),
        ] + match attachment.filename {
            Some(f) => if trim(f@).len() > 0 {
                seq![("title"@, JsonV::Str(f@))]
            } else {
                Seq::empty()
            },
            None => Seq::empty(),
        } + opt_u32_json("width"@, attachment.width) + opt_u32_json("height"@, attachment.height),
    )
}

/// The media item of an exported image: its data URL, and the file name and size it has.
pub fn media_value(attachment: &ImageAttachment, data_url: String) -> (r: Json)
    ensures
        r@ == media_item(*attachment, data_url@),
{
    let mut members: Vec<(String, Json)> = Vec::new();
    let ghost url = data_url@;
    members.push(("url".to_owned(), Json::Str(data_url)));
    members.push(("type".to_owned(), Json::from_str("image")));
    members.push(("source".to_owned(), Json::from_str("upload")));
    if let Some(filename) = &attachment.filename {
        if !crate::text::is_blank(filename.as_str()) {
            members.push(("title".to_owned(), Json::Str(filename.clone())));
        }
    }
    if let Some(width) = attachment.width {
        members.push(("width".to_owned(), Json::from_u64(width as u64)));
    }
    if let Some(height) = attachment.height {
        members.push(("height".to_owned(), Json::from_u64(height as u64)));
    }
    let r = Json::Object(members);
    proof {
        r.lemma_array_view();
        assert(crate::json::member_views(members@) =~= media_item(*attachment, url)->Object_0);
    }
    r
}

/// An exported message with its images: `extra.inline_image`, `extra.media_display` and the
/// `extra.media` array (`extra` becomes an object when it is not one). Nothing changes without
/// images, or when the message is not an object.
pub open spec fn with_media(message: JsonV, media: Seq<JsonV>) -> JsonV {
    if media.len() == 0 || !message.is_object() {
        message
    } else {
        let extra = match message.get("extra"@) {
            Some(e) => if e.is_object() {
                e
            } else {
                JsonV::Object(Seq::empty())
            },
            None => JsonV::Object(Seq::empty()),
        };
        message.insert(
            "extra"@,
            extra.insert("inline_image"@, JsonV::Bool(true)).insert(
                "media_display"@,
                JsonV::Str("list"@),
            ).insert("media"@, JsonV::Array(media)),
        )
    }
}

pub fn attach_images_to_exported_message(message: &mut Json, media: Vec<Json>)
    ensures
        final(message)@ == with_media(old(message)@, views(media@)),
{
    if media.len() == 0 || !message.is_object() {
        return;
    }
    let mut extra = match message.get("extra") {
        Some(e) => if e.is_object() {
            e.copy()
        } else {
            Json::empty_object()
        },
        None => Json::empty_object(),
    };
    extra.insert("inline_image", Json::Bool(true));
    extra.insert("media_display", Json::from_str("list"));
    let items = Json::Array(media);
    proof {
        items.lemma_array_view();
    }
    extra.insert("media", items);
    message.insert("extra", extra);
}

// ---------------------------------------------------------------------------
// Import
// ---------------------------------------------------------------------------

/// A `u32` number.
pub open spec fn as_u32(v: Option<JsonV>) -> Option<u32> {
    match v {
        Some(x) => match x.as_u64() {
            Some(n) => if n <= u32::MAX {
                Some(n as u32)
            } else {
                None
            },
            None => None,
        },
        None => None,
    }
}

pub fn optional_u32(value: Option<&Json>) -> (r: Option<u32>)
    ensures
        r == as_u32(opt_view(value)),
{
    match value {
        Some(v) => match v.as_u64() {
            Some(n) => if n <= 4294967295u64 {
                Some(n as u32)
            } else {
                None
            },
            None => None,
        },
        None => None,
    }
}

/// Adds an inline image source unless its URL is not a Base64 image or is already present.
pub open spec fn pushed_source(sources: Seq<InlineImageSourceV>, s: InlineImageSourceV) -> Seq<
    InlineImageSourceV,
> {
    if data_url_image_mime(s.data_url) is None || exists|i: int|
        0 <= i < sources.len() && (#[trigger] sources[i]).data_url == s.data_url {
        sources
    } else {
        sources.push(s)
    }
}

pub fn push_inline_source(
    sources: &mut Vec<InlineImageSource>,
    data_url: &str,
    filename: Option<String>,
    width: Option<u32>,
    height: Option<u32>,
)
    ensures
        source_views(final(sources)@) == pushed_source(
            source_views(old(sources)@),
            InlineImageSourceV {
                data_url: data_url@,
                filename: opt_string_view(filename),
                width,
                height,
            },
        ),
{
    if image_mime_from_data_url(data_url).is_none() {
        return;
    }
    let mut i: usize = 0;
    while i < sources.len()
        invariant
            i <= sources.len(),
            forall|j: int| 0 <= j < i ==> (#[trigger] sources@[j]).data_url@ != data_url@,
        decreases sources.len() - i,
    {
        if str_eq(sources[i].data_url.as_str(), data_url) {
            assert(source_views(sources@)[i as int].data_url == data_url@);
            return;
        }
        i += 1;
    }
    let ghost before = source_views(sources@);
    let source = InlineImageSource { data_url: data_url.to_owned(), filename, width, height };
    sources.push(source);
    assert(source_views(sources@) =~= before.push(source@));
    assert forall|j: int| 0 <= j < before.len() implies (#[trigger] before[j]).data_url != data_url@ by {
        assert(before[j] == old(sources)@[j]@);
    }
}

/// Whether a media item is an image: it has no `type`, or its `type` is `image`.
pub open spec fn is_image_item(item: JsonV) -> bool {
    match item.get_str("type"@) {
        Some(t) => t == "image"@,
        None => true,
    }
}

/// The sources the media items add, in order.
pub open spec fn media_sources(sources: Seq<InlineImageSourceV>, items: Seq<JsonV>) -> Seq<
    InlineImageSourceV,
>
    decreases items.len(),
{
    if items.len() == 0 {
        sources
    } else {
        let before = media_sources(sources, items.drop_last());
        let item = items.last();
        if !is_image_item(item) {
            before
        } else {
            match item.get_str("url"@) {
                Some(url) => pushed_source(
                    before,
                    InlineImageSourceV {
                        data_url: url,
                        filename: item.get_str("title"@),
                        width: as_u32(item.get("width"@)),
                        height: as_u32(item.get("height"@)),
                    },
                ),
                None => before,
            }
        }
    }
}

/// The inline images of an exported entry: `extra.media` items of image type, then the older
/// `extra.image`, each data URL once.
pub open spec fn entry_image_sources(entry: JsonV) -> Seq<InlineImageSourceV> {
    match entry.get("extra"@) {
        Some(extra) => if extra.is_object() {
            let from_media = match extra.get_array("media"@) {
                Some(items) => media_sources(Seq::empty(), items),
                None => Seq::empty(),
            };
            match extra.get_str("image"@) {
                Some(url) => pushed_source(
                    from_media,
                    InlineImageSourceV {
                        data_url: url,
                        filename: extra.get_str("title"@),
                        width: None,
                        height: None,
                    },
                ),
                None => from_media,
            }
        } else {
            Seq::empty()
        },
        None => Seq::empty(),
    }
}

/// No data URL occurs twice, and each is an image data URL.
pub open spec fn distinct_image_sources(s: Seq<InlineImageSourceV>) -> bool {
    &&& forall|i: int, j: int|
        0 <= i < j < s.len() ==> (#[trigger] s[i]).data_url != (#[trigger] s[j]).data_url
    &&& forall|i: int| 0 <= i < s.len() ==> data_url_image_mime((#[trigger] s[i]).data_url) is Some
}

proof fn lemma_pushed_distinct(sources: Seq<InlineImageSourceV>, s: InlineImageSourceV)
    requires
        distinct_image_sources(sources),
    ensures
        distinct_image_sources(pushed_source(sources, s)),
{
    let r = pushed_source(sources, s);
    if r != sources {
        assert forall|i: int, j: int| 0 <= i < j < r.len() implies (#[trigger] r[i]).data_url
            != (#[trigger] r[j]).data_url by {
            if j == sources.len() {
                assert(r[i] == sources[i]);
            } else {
                assert(r[i] == sources[i] && r[j] == sources[j]);
            }
        }
        assert forall|i: int| 0 <= i < r.len() implies data_url_image_mime((#[trigger] r[i]).data_url) is Some by {
            if i < sources.len() {
                assert(r[i] == sources[i]);
            }
        }
    }
}

proof fn lemma_media_sources_distinct(sources: Seq<InlineImageSourceV>, items: Seq<JsonV>)
    requires
        distinct_image_sources(sources),
    ensures
        distinct_image_sources(media_sources(sources, items)),
    decreases items.len(),
{
    if items.len() > 0 {
        lemma_media_sources_distinct(sources, items.drop_last());
        let before = media_sources(sources, items.drop_last());
        let item = items.last();
        if is_image_item(item) {
            match item.get_str("url"@) {
                Some(url) => lemma_pushed_distinct(
                    before,
                    InlineImageSourceV {
                        data_url: url,
                        filename: item.get_str("title"@),
                        width: as_u32(item.get("width"@)),
                        height: as_u32(item.get("height"@)),
                    },
                ),
                None => {},
            }
        }
    }
}

/// Reading an exported entry's images yields each image data URL once, whether it comes from
/// the current `media` array or the older `image` field, and nothing but image data URLs.
pub proof fn law_entry_images_without_duplicates(entry: JsonV)
    ensures
        distinct_image_sources(entry_image_sources(entry)),
{
    match entry.get("extra"@) {
        Some(extra) => if extra.is_object() {
            let from_media = match extra.get_array("media"@) {
                Some(items) => media_sources(Seq::empty(), items),
                None => Seq::empty(),
            };
            match extra.get_array("media"@) {
                Some(items) => lemma_media_sources_distinct(Seq::empty(), items),
                None => {},
            }
            match extra.get_str("image"@) {
                Some(url) => lemma_pushed_distinct(
                    from_media,
                    InlineImageSourceV {
                        data_url: url,
                        filename: extra.get_str("title"@),
                        width: None,
                        height: None,
                    },
                ),
                None => {},
            }
        },
        None => {},
    }
}

fn opt_owned(value: Option<&String>) -> (r: Option<String>)
    ensures
        opt_string_view(r) == match value {
            Some(s) => Some(s@),
            None => None::<Seq<char>>,
        },
{
    match value {
        Some(s) => Some(s.clone()),
        None => None,
    }
}

pub fn inline_image_sources(entry: &Json) -> (r: Vec<InlineImageSource>)
    ensures
        source_views(r@) == entry_image_sources(entry@),
{
    let extra = match entry.get("extra") {
        Some(e) => if e.is_object() {
            e
        } else {
            let r: Vec<InlineImageSource> = Vec::new();
            assert(source_views(r@) =~= Seq::<InlineImageSourceV>::empty());
            return r;
        },
        None => {
            let r: Vec<InlineImageSource> = Vec::new();
            assert(source_views(r@) =~= Seq::<InlineImageSourceV>::empty());
            return r;
        },
    };
    let mut sources: Vec<InlineImageSource> = Vec::new();
    assert(source_views(sources@) =~= Seq::<InlineImageSourceV>::empty());
    if let Some(media) = extra.get_array("media") {
        let ghost items = views(media@);
        let mut i: usize = 0;
        while i < media.len()
            invariant
                i <= media.len(),
                items == views(media@),
                source_views(sources@) == media_sources(Seq::empty(), items.take(i as int)),
            decreases media.len() - i,
        {
            assert(items.take(i + 1).drop_last() =~= items.take(i as int));
            assert(items.take(i + 1).last() == media@[i as int]@);
            let item = &media[i];
            let is_image = match item.get_str("type") {
                Some(t) => str_eq(t.as_str(), "image"),
                None => true,
            };
            if is_image {
                if let Some(url) = item.get_str("url") {
                    push_inline_source(
                        &mut sources,
                        url.as_str(),
                        opt_owned(item.get_str("title")),
                        optional_u32(item.get("width")),
                        optional_u32(item.get("height")),
                    );
                }
            }
            i += 1;
        }
        assert(items.take(media.len() as int) =~= items);
    }
    if let Some(url) = extra.get_str("image") {
        push_inline_source(&mut sources, url.as_str(), opt_owned(extra.get_str("title")), None, None);
    }
    sources
}

/// The attachment an imported inline image becomes once stored at `storage_path`.
pub fn imported_attachment(
    id: String,
    storage_path: String,
    data_url_mime: &str,
    source: InlineImageSource,
) -> (r: ImageAttachment)
    ensures
        r.id == id,
        r.data@.len() == 0,
        r.mime_type@ == stored_mime(storage_path@, data_url_mime@),
        opt_string_view(r.filename) == opt_string_view(source.filename),
        r.width == source.width,
        r.height == source.height,
        opt_string_view(r.storage_path) == Some(storage_path@),
{
    let mime_type = stored_image_mime(storage_path.as_str(), data_url_mime);
    ImageAttachment {
        id,
        data: String::new(),
        mime_type,
        filename: source.filename,
        width: source.width,
        height: source.height,
        storage_path: Some(storage_path),
    }
}

/// Where an exported image's data URL comes from.
pub enum ExportSource {
    /// The attachment's own inline data.
    Inline(String),
    /// The attachment store, at this path.
    Stored(String),
}

/// Whether an attachment is an image (by its type, in any ASCII case).
pub fn is_image_attachment(attachment: &ImageAttachment) -> (r: bool)
    ensures
        r == starts_with(lower_seq(attachment.mime_type@), "image/"@),
{
    let lower = to_ascii_lowercase(attachment.mime_type.as_str());
    starts_with_exec(&chars_of(lower.as_str()), &chars_of("image/"))
}

/// Where to read an attachment's image from: its inline data when that is a Base64 image URL,
/// else its stored file; an error when it has neither.
pub fn export_source(attachment: &ImageAttachment) -> (r: Result<ExportSource, String>)
    ensures
        data_url_image_mime(attachment.data@) is Some ==> (r matches Ok(ExportSource::Inline(d)) && d@
            == attachment.data@),
        data_url_image_mime(attachment.data@) is None ==> match attachment.storage_path {
            Some(p) => (r matches Ok(ExportSource::Stored(q)) && q@ == p@),
            None => (r matches Err(e) && e@ == "Image attachment has neither inline data nor a storage path"@),
        },
{
    if image_mime_from_data_url(attachment.data.as_str()).is_some() {
        return Ok(ExportSource::Inline(attachment.data.clone()));
    }
    match &attachment.storage_path {
        Some(path) => Ok(ExportSource::Stored(path.clone())),
        None => Err("Image attachment has neither inline data nor a storage path".to_owned()),
    }
}

/// Accepts a data URL read from the attachment store only when it is a Base64 image.
pub fn check_stored_data_url(data_url: String) -> (r: Result<String, String>)
    ensures
        data_url_image_mime(data_url@) is Some ==> (r matches Ok(d) && d@ == data_url@),
        data_url_image_mime(data_url@) is None ==> (r matches Err(e) && e@
            == "Stored attachment is not a Base64 image"@),
{
    if image_mime_from_data_url(data_url.as_str()).is_none() {
        return Err("Stored attachment is not a Base64 image".to_owned());
    }
    Ok(data_url)
}

} // verus!
