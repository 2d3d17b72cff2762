use lettuce_core::chat::multimodal::files_endpoint::{file_url, normalize_endpoint, sanitized_url};
use lettuce_core::chat::multimodal::volcengine_files::{normalized_filename, short_value, truncate};
use lettuce_core::chat::attachments::ModelImageLoadMode;
use lettuce_core::chat::model_image::{
    cache_total_bytes, cached_model_image_payload, compress_model_image, data_url_payload,
    encode_model_jpeg, flatten_rgba_onto_white, image_mime_type, inline_model_image_bytes,
    model_image_cache_key, plan_model_image, prune_step, ImageKind, ModelImageError,
    ModelImagePlan, PruneStep, MODEL_IMAGE_CACHE_MAX_BYTES,
};
use lettuce_core::chat::multimodal::volcengine_files::{
    parse_image_data_url, check_uploaded_file_id, file_status_step, FileStatusStep, inline_image_locations, parse_expiry_ms, replace_with_file_id, ImagePartLocation,
};
use lettuce_core::chat::multimodal::{
    image_upload_config, model_image_load_mode, DEFAULT_VOLCENGINE_ARK_FILES_ENDPOINT,
};
use lettuce_core::chat::types::ProviderCredential;
use lettuce_core::json::{Json, JsonNumber};

fn s(text: &str) -> Json {
    Json::Str(text.to_string())
}

fn obj(members: Vec<(&str, Json)>) -> Json {
    Json::Object(members.into_iter().map(|(k, v)| (k.to_string(), v)).collect())
}

fn credential(config: Option<Json>) -> ProviderCredential {
    ProviderCredential {
        id: "credential".to_string(),
        provider_id: "custom".to_string(),
        label: "Ark".to_string(),
        api_key: Some("key".to_string()),
        base_url: None,
        default_model: None,
        headers: None,
        config,
    }
}

#[test]
fn old_provider_config_remains_compressed_base64() {
    let credential = credential(None);
    assert_eq!(
        model_image_load_mode(&credential),
        ModelImageLoadMode::CompressedBase64
    );
}

#[test]
fn files_mode_loads_original_image_and_applies_defaults() {
    let credential = credential(Some(obj(vec![(
        "imageUpload",
        obj(vec![("mode", s("volcengine-ark-files"))]),
    )])));
    let parsed = image_upload_config(&credential);
    assert_eq!(
        model_image_load_mode(&credential),
        ModelImageLoadMode::OriginalForRemoteUpload
    );
    assert_eq!(parsed.endpoint, DEFAULT_VOLCENGINE_ARK_FILES_ENDPOINT);
}

fn image_url_of(part: &Json) -> Option<&Json> {
    part.get("image_url")
}

#[test]
fn finds_and_rewrites_only_inline_images() {
    let mut messages = vec![obj(vec![
        ("role", s("user")),
        (
            "content",
            Json::Array(vec![
                obj(vec![("type", s("text")), ("text", s("hello"))]),
                obj(vec![
                    ("type", s("image_url")),
                    (
                        "image_url",
                        obj(vec![
                            ("url", s("data:image/png;base64,AA==")),
                            ("detail", s("auto")),
                        ]),
                    ),
                ]),
                obj(vec![
                    ("type", s("image_url")),
                    (
                        "image_url",
                        obj(vec![("url", s("https://example.com/image.png"))]),
                    ),
                ]),
            ]),
        ),
    ])];

    let locations = inline_image_locations(&messages);
    assert_eq!(locations.len(), 1);
    assert!(replace_with_file_id(
        &mut messages,
        ImagePartLocation {
            message_index: 0,
            part_index: 1,
        },
        "file-123"
    ));
    let content = messages[0].get_array("content").expect("content array");
    let image = image_url_of(&content[1]).expect("image_url");
    match image {
        Json::Object(members) => {
            assert_eq!(members.len(), 1);
            assert_eq!(members[0].0, "file_id");
            assert_eq!(members[0].1.as_str().map(|v| v.as_str()), Some("file-123"));
        }
        _ => panic!("image_url is not an object"),
    }
}

#[test]
fn normalizes_second_and_millisecond_expiries() {
    assert_eq!(
        parse_expiry_ms(&Json::Number(JsonNumber::PosInt(1_800_000_000_u64))),
        Some(1_800_000_000_000)
    );
    assert_eq!(
        parse_expiry_ms(&Json::Number(JsonNumber::PosInt(1_800_000_000_123_u64))),
        Some(1_800_000_000_123)
    );
}

fn png_bytes(width: u32, height: u32, pixel: [u8; 4]) -> Vec<u8> {
    let image = image::RgbaImage::from_pixel(width, height, image::Rgba(pixel));
    let mut bytes = Vec::new();
    image::DynamicImage::ImageRgba8(image)
        .write_to(&mut std::io::Cursor::new(&mut bytes), image::ImageFormat::Png)
        .expect("png encodes");
    bytes
}

#[test]
fn small_images_are_sent_unchanged_with_their_type() {
    let png = png_bytes(2, 2, [10, 20, 30, 255]);
    match plan_model_image(&png) {
        Ok(ModelImagePlan::Ready(payload)) => {
            assert_eq!(payload.mime_type, "image/png");
            assert!(payload.data_url.starts_with("data:image/png;base64,iVBORw0KGgo"));
        }
        _ => panic!("expected a ready payload"),
    }
}

#[test]
fn unknown_bytes_are_refused() {
    assert!(matches!(
        plan_model_image(b"hello world"),
        Err(ModelImageError::UnknownFormat)
    ));
}

#[test]
fn payload_frames_base64_data_url() {
    let payload = data_url_payload(&[0, 1, 2], "image/gif");
    assert_eq!(payload.data_url, "data:image/gif;base64,AAEC");
    assert_eq!(payload.mime_type, "image/gif");
    assert_eq!(image_mime_type(ImageKind::WebP), "image/webp");
    assert_eq!(image_mime_type(ImageKind::Other), "application/octet-stream");
}

#[test]
fn flattening_composites_alpha_over_white() {
    let rgba = vec![100, 150, 200, 255, 100, 150, 200, 0, 0, 0, 0, 128];
    let rgb = flatten_rgba_onto_white(&rgba, 3, 1);
    assert_eq!(rgb, vec![100, 150, 200, 255, 255, 255, 127, 127, 127]);
}

#[test]
fn jpeg_encoding_respects_pixel_limit() {
    let png = png_bytes(4, 4, [0, 0, 0, 0]);
    assert!(matches!(
        encode_model_jpeg(&png, 15),
        Err(ModelImageError::PixelLimit { width: 4, height: 4, pixels: 16, max_pixels: 15 })
    ));
    let encoded = encode_model_jpeg(&png, 16).expect("encodes");
    assert_eq!(encoded.quality, 82);
    assert_eq!(&encoded.bytes[..3], &[0xFF, 0xD8, 0xFF]);
}

#[test]
fn larger_jpeg_keeps_the_source() {
    let png = png_bytes(1, 1, [1, 2, 3, 255]);
    let compressed = compress_model_image(&png, ImageKind::Png, 100).expect("compresses");
    assert!(compressed.cache_bytes.is_none());
    assert_eq!(compressed.payload.mime_type, "image/png");
}

#[test]
fn cache_key_covers_profile_and_bytes() {
    let key = model_image_cache_key(b"abc");
    assert_eq!(key.len(), 64);
    assert_ne!(key, blake3::hash(b"abc").to_hex().to_string());
    assert_eq!(
        key,
        blake3::hash(b"jpeg-v1-target-4m-q82-70-58abc").to_hex().to_string()
    );
    assert!(cached_model_image_payload(&[]).is_none());
    let cached = cached_model_image_payload(&[0xFF]).expect("payload");
    assert_eq!(cached.data_url, "data:image/jpeg;base64,/w==");
}

#[test]
fn inline_attachment_text_after_comma_is_decoded() {
    assert_eq!(
        inline_model_image_bytes("data:image/png;base64,AAEC").ok(),
        Some(vec![0, 1, 2])
    );
    assert_eq!(inline_model_image_bytes("AAEC").ok(), Some(vec![0, 1, 2]));
    assert!(matches!(
        inline_model_image_bytes("data:image/png;base64,***"),
        Err(ModelImageError::InvalidInlineData)
    ));
}

#[test]
fn pruning_stops_within_budget_and_spares_the_new_file() {
    assert_eq!(cache_total_bytes(&vec![u64::MAX, 5]), u64::MAX);
    assert_eq!(cache_total_bytes(&vec![3, 5]), 8);
    assert_eq!(prune_step(MODEL_IMAGE_CACHE_MAX_BYTES, false), PruneStep::Done);
    assert_eq!(prune_step(MODEL_IMAGE_CACHE_MAX_BYTES + 1, true), PruneStep::Keep);
    assert_eq!(prune_step(MODEL_IMAGE_CACHE_MAX_BYTES + 1, false), PruneStep::Remove);
}

#[test]
fn upload_file_names_come_from_the_name_or_the_type() {
    assert_eq!(normalized_filename(Some(" dir/photo.png "), "image/png"), "photo.png");
    assert_eq!(normalized_filename(Some("dir/sub/"), "image/png"), "sub");
    assert_eq!(normalized_filename(Some("a/.."), "image/png"), "image");
    assert_eq!(normalized_filename(Some("   "), "image/webp"), "image.webp");
    assert_eq!(normalized_filename(None, "image/heic"), "image.jpg");
    assert_eq!(short_value("file-0123456789abcdef"), "file-0123456");
    assert_eq!(truncate("héllo", 2), "hé");
}

#[test]
fn files_endpoints_are_trimmed_and_must_be_http() {
    let endpoint = normalize_endpoint("  https://ark.cn-beijing.volces.com/api/v3/files//  ")
        .expect("an HTTPS endpoint is accepted");
    assert_eq!(endpoint.serialization, "https://ark.cn-beijing.volces.com/api/v3/files");
    assert_eq!(endpoint.scheme, "https");
    let plain = normalize_endpoint("HTTP://Example.COM/files").expect("HTTP is accepted");
    assert_eq!(plain.scheme, "http");
    assert_eq!(plain.serialization, "http://example.com/files");
    assert_eq!(
        normalize_endpoint("ftp://example.com/files").unwrap_err(),
        "Files API URL must use HTTP or HTTPS"
    );
    assert!(normalize_endpoint("not a url").is_err());
}

#[test]
fn logged_endpoints_drop_query_and_fragment() {
    let endpoint = normalize_endpoint("https://files.example.com/v3/files?token=secret#part")
        .expect("valid endpoint");
    assert_eq!(sanitized_url(&endpoint), "https://files.example.com/v3/files");
    assert_eq!(endpoint.serialization, "https://files.example.com/v3/files?token=secret#part");
}

#[test]
fn file_urls_resolve_encoded_ids_under_the_endpoint() {
    let endpoint = normalize_endpoint("https://ark.example.com/api/v3/files").expect("valid endpoint");
    assert_eq!(
        file_url(&endpoint, "file-abc 1").expect("joinable"),
        "https://ark.example.com/api/v3/files/file-abc%201"
    );
    assert_eq!(
        file_url(&endpoint, "file-123").expect("joinable"),
        "https://ark.example.com/api/v3/files/file-123"
    );
}

#[test]
fn upload_responses_must_name_a_file() {
    assert_eq!(check_uploaded_file_id("file-123"), Ok(()));
    assert_eq!(
        check_uploaded_file_id("  "),
        Err("Files API upload response did not include a file id".to_string())
    );
}

#[test]
fn file_status_decides_between_ready_failed_timeout_and_polling() {
    assert_eq!(file_status_step(" Active ", None, "file-1", false), FileStatusStep::Active);
    assert_eq!(file_status_step("active", None, "file-1", true), FileStatusStep::Active);
    assert_eq!(
        file_status_step("FAILED", Some("{\"code\":\"bad_image\"}"), "file-1", false),
        FileStatusStep::Failed("Files API failed to process the image: {\"code\":\"bad_image\"}".to_string())
    );
    assert_eq!(
        file_status_step("failed", None, "file-1", false),
        FileStatusStep::Failed("Files API failed to process the image: \"unknown error\"".to_string())
    );
    assert_eq!(file_status_step("processing", None, "file-1", false), FileStatusStep::Poll);
    assert_eq!(
        file_status_step("processing", None, "file-0123456789abcdef", true),
        FileStatusStep::TimedOut(
            "Files API image file-0123456 did not become active within 300 seconds".to_string()
        )
    );
}

#[test]
fn image_data_urls_decode_or_say_why_not() {
    let parsed = parse_image_data_url("data:image/JPG;base64,AAEC", "image/png").expect("decodes");
    assert_eq!(parsed.mime_type, "image/jpeg");
    assert_eq!(parsed.bytes, vec![0, 1, 2]);
    let fallback = parse_image_data_url("data:;base64,AAEC", "image/png").expect("decodes");
    assert_eq!(fallback.mime_type, "image/png");
    assert_eq!(
        parse_image_data_url("no comma here", "image/png").err(),
        Some("Image attachment is not a data URL".to_string())
    );
    assert_eq!(
        parse_image_data_url("data:image/png,AAEC", "image/png").err(),
        Some("Image attachment must be Base64 encoded".to_string())
    );
    assert!(parse_image_data_url("data:image/png;base64,@@@", "image/png")
        .err()
        .expect("undecodable Base64 is refused")
        .starts_with("Failed to decode image attachment: "));
}

#[test]
fn inline_base64_must_be_canonical() {
    assert_eq!(inline_model_image_bytes("/w==").ok(), Some(vec![0xFF]));
    assert_eq!(inline_model_image_bytes("AAE=").ok(), Some(vec![0, 1]));
    assert_eq!(inline_model_image_bytes("").ok(), Some(vec![]));
    for text in ["/w", "/w=", "/x==", "AAF=", "A===", "AA==AAEC", "AA EC"] {
        assert!(matches!(inline_model_image_bytes(text), Err(ModelImageError::InvalidInlineData)), "{text}");
    }
}

#[test]
fn base64_text_decodes_to_its_bytes() {
    let bytes: Vec<u8> = (0u8..=255).collect();
    for len in [0usize, 1, 2, 3, 4, 5, 6, 7, 64, 255, 256] {
        let payload = data_url_payload(&bytes[..len], "image/png");
        let decoded = inline_model_image_bytes(&payload.data_url).expect("decodes");
        assert_eq!(decoded, bytes[..len].to_vec());
    }
}
