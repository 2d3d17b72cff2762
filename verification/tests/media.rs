use lettuce_core::chat::attachments::{attachment_after_load, fallback_for, LoadSource};
use lettuce_core::chat::types::ImageAttachment;
use lettuce_core::json::{Json, JsonNumber};
use lettuce_core::storage::jsonl_media::{
    attach_images_to_exported_message, check_stored_data_url, export_source,
    image_mime_from_data_url, imported_attachment, inline_image_sources, is_image_attachment,
    media_value, optional_u32, ExportSource, InlineImageSource,
};

fn s(text: &str) -> Json {
    Json::Str(text.to_string())
}

fn obj(members: Vec<(&str, Json)>) -> Json {
    Json::Object(members.into_iter().map(|(k, v)| (k.to_string(), v)).collect())
}

fn text<'a>(value: &'a Json, key: &str) -> Option<&'a str> {
    value.get_str(key).map(|s| s.as_str())
}

fn attachment(data: &str, storage_path: Option<&str>) -> ImageAttachment {
    ImageAttachment {
        id: "a1".to_string(),
        data: data.to_string(),
        mime_type: "IMAGE/PNG".to_string(),
        filename: Some("  ".to_string()),
        width: Some(3),
        height: None,
        storage_path: storage_path.map(str::to_string),
    }
}

#[test]
fn reads_current_and_legacy_inline_images_without_duplicates() {
    let first = "data:image/png;base64,AA==";
    let second = "data:image/jpeg;base64,AQ==";
    let entry = obj(vec![(
        "extra",
        obj(vec![
            (
                "media",
                Json::Array(vec![
                    obj(vec![
                        ("url", s(first)),
                        ("type", s("image")),
                        ("title", s("first.png")),
                        ("width", Json::Number(JsonNumber::PosInt(12))),
                    ]),
                    obj(vec![("url", s("https://example.com/remote.png")), ("type", s("image"))]),
                    obj(vec![("url", s("data:audio/mpeg;base64,AA==")), ("type", s("audio"))]),
                ]),
            ),
            ("image", s(second)),
        ]),
    )]);

    let sources = inline_image_sources(&entry);
    assert_eq!(sources.len(), 2);
    assert_eq!(sources[0].data_url, first);
    assert_eq!(sources[0].filename.as_deref(), Some("first.png"));
    assert_eq!(sources[0].width, Some(12));
    assert_eq!(sources[1].data_url, second);
}

#[test]
fn writes_portable_media_array_to_message_extra() {
    let data_url = "data:image/webp;base64,AA==";
    let mut message = obj(vec![("mes", s("hello")), ("extra", obj(vec![]))]);
    attach_images_to_exported_message(
        &mut message,
        vec![obj(vec![("url", s(data_url)), ("type", s("image"))])],
    );

    let extra = message.get("extra").unwrap();
    assert_eq!(extra.get_bool("inline_image"), Some(true));
    assert_eq!(text(extra, "media_display"), Some("list"));
    assert_eq!(text(&extra.get_array("media").unwrap()[0], "url"), Some(data_url));
}

#[test]
fn stored_mime_tracks_lossless_webp_conversion() {
    assert_eq!(
        lettuce_core::storage::jsonl_media::stored_image_mime("sessions/a/image.webp", "image/png"),
        "image/webp"
    );
}

#[test]
fn data_url_mime_types_are_canonical() {
    assert_eq!(image_mime_from_data_url("data:IMAGE/JPG;charset=x; BASE64 ,AA").as_deref(), Some("image/jpeg"));
    assert_eq!(image_mime_from_data_url("data:image/x-png;base64,AA").as_deref(), Some("image/png"));
    assert_eq!(image_mime_from_data_url("data: image/webp ;base64,AA").as_deref(), Some("image/webp"));
    assert_eq!(image_mime_from_data_url("data:image/png,AA"), None);
    assert_eq!(image_mime_from_data_url("data:image/png;base64"), None);
    assert_eq!(image_mime_from_data_url("data:text/plain;base64,AA"), None);
    assert_eq!(image_mime_from_data_url("image/png;base64,AA"), None);
    assert_eq!(image_mime_from_data_url("data:base64;image/png,AA"), None);
}

#[test]
fn media_items_and_import_attachments() {
    let item = media_value(&attachment("", None), "data:image/png;base64,AA".to_string());
    assert_eq!(text(&item, "url"), Some("data:image/png;base64,AA"));
    assert_eq!(text(&item, "source"), Some("upload"));
    assert!(item.get("title").is_none());
    assert_eq!(item.get_u64("width"), Some(3));
    assert!(item.get("height").is_none());

    let source = InlineImageSource {
        data_url: "data:image/png;base64,AA".to_string(),
        filename: Some("x.png".to_string()),
        width: None,
        height: Some(5),
    };
    let stored = imported_attachment("id".to_string(), "sessions/a/b.jpeg".to_string(), "image/png", source);
    assert_eq!(stored.mime_type, "image/jpeg");
    assert_eq!(stored.data, "");
    assert_eq!(stored.height, Some(5));
    assert_eq!(optional_u32(Some(&Json::Number(JsonNumber::PosInt(1 << 33)))), None);
    assert_eq!(optional_u32(Some(&s("7"))), None);
}

#[test]
fn export_sources_prefer_inline_data() {
    assert!(is_image_attachment(&attachment("", None)));
    match export_source(&attachment("data:image/png;base64,AA", Some("p"))) {
        Ok(ExportSource::Inline(url)) => assert_eq!(url, "data:image/png;base64,AA"),
        _ => panic!("expected inline data"),
    }
    match export_source(&attachment("", Some("sessions/p.png"))) {
        Ok(ExportSource::Stored(path)) => assert_eq!(path, "sessions/p.png"),
        _ => panic!("expected stored path"),
    }
    assert!(export_source(&attachment("", None)).is_err());
    assert!(check_stored_data_url("data:text/plain;base64,AA".to_string()).is_err());
    assert_eq!(check_stored_data_url("data:image/gif;base64,R0".to_string()), Ok("data:image/gif;base64,R0".to_string()));
}

#[test]
fn only_model_images_fall_back_to_the_stored_original() {
    assert_eq!(fallback_for(LoadSource::StoredForModel), Some(LoadSource::StoredOriginal));
    assert_eq!(fallback_for(LoadSource::StoredOriginal), None);
    assert_eq!(fallback_for(LoadSource::CompressInline), None);
    assert_eq!(fallback_for(LoadSource::AsIs), None);
}

#[test]
fn attachment_keeps_its_data_when_nothing_loads() {
    let original = attachment("", Some("images/a.png"));
    let loaded = attachment_after_load(
        &original,
        Some(("data:image/jpeg;base64,/w==".to_string(), "image/jpeg".to_string())),
    );
    assert_eq!(loaded.data, "data:image/jpeg;base64,/w==");
    assert_eq!(loaded.mime_type, "image/jpeg");
    assert_eq!(loaded.storage_path.as_deref(), Some("images/a.png"));
    assert_eq!(loaded.width, Some(3));
    let kept = attachment_after_load(&original, None);
    assert_eq!(kept.data, "");
    assert_eq!(kept.mime_type, "IMAGE/PNG");
    assert_eq!(kept.id, "a1");
}
