use lettuce_core::tts::audio_cache::{
    extension_to_format, format_to_extension, generate_cache_key, pcm16_mono_to_wav,
};
use lettuce_core::tts::cache_metadata::{
    check_backup_schema, stored_size, stored_variant, timestamp_millis, validate_context,
    TtsCacheContext, TtsCacheReference, BACKUP_SCHEMA_VERSION,
};
use lettuce_core::tts::pcm_output::pcm_write_result;

#[test]
fn wraps_pcm16_mono_with_sample_rate_metadata() {
    let pcm = [0x01, 0x02, 0x03, 0x04];
    let wav = pcm16_mono_to_wav(&pcm, 24_000).expect("valid PCM should be wrapped");

    assert_eq!(&wav[0..4], b"RIFF");
    assert_eq!(&wav[8..12], b"WAVE");
    assert_eq!(u32::from_le_bytes(wav[24..28].try_into().unwrap()), 24_000);
    assert_eq!(u16::from_le_bytes(wav[22..24].try_into().unwrap()), 1);
    assert_eq!(u16::from_le_bytes(wav[34..36].try_into().unwrap()), 16);
    assert_eq!(u32::from_le_bytes(wav[40..44].try_into().unwrap()), 4);
    assert_eq!(&wav[44..], &pcm);
}

#[test]
fn rejects_incomplete_pcm16_sample() {
    assert!(pcm16_mono_to_wav(&[0x01], 24_000).is_err());
}

#[test]
fn wav_header_fields_and_errors() {
    let wav = pcm16_mono_to_wav(&[0u8; 6], 8_000).unwrap();
    assert_eq!(wav.len(), 50);
    assert_eq!(u32::from_le_bytes(wav[4..8].try_into().unwrap()), 42);
    assert_eq!(u32::from_le_bytes(wav[28..32].try_into().unwrap()), 16_000);
    assert_eq!(u16::from_le_bytes(wav[32..34].try_into().unwrap()), 2);
    assert_eq!(
        pcm16_mono_to_wav(&[0, 0], 0),
        Err("PCM sample rate must be greater than zero".to_string())
    );
    assert_eq!(
        pcm16_mono_to_wav(&[0, 0], u32::MAX),
        Err("PCM sample rate is too large for a WAV container".to_string())
    );
    assert_eq!(
        pcm16_mono_to_wav(&[1], 1),
        Err("PCM16 audio data must contain complete samples".to_string())
    );
}

#[test]
fn cache_key_is_a_hash_of_every_part() {
    let a = generate_cache_key("p", "m", "v", "hello", None);
    let b = generate_cache_key("p", "m", "v", "hello", Some("calm"));
    let c = generate_cache_key("p", "m", "v", "hello", None);
    assert_eq!(a.len(), 64);
    assert_ne!(a, b);
    assert_eq!(a, c);
    assert_ne!(a, "p|m|v|hello|");
    assert_ne!(generate_cache_key("p", "m", "v", "hellO", None), a);
}

#[test]
fn audio_formats_map_to_extensions_and_back() {
    assert_eq!(format_to_extension("audio/mp3"), "mp3");
    assert_eq!(format_to_extension("audio/wave"), "wav");
    assert_eq!(format_to_extension("video/mp4"), "audio");
    assert_eq!(extension_to_format("pcm"), "audio/pcm");
    assert_eq!(extension_to_format("audio"), "audio/octet-stream");
    for ext in ["mp3", "wav", "ogg", "webm", "pcm"] {
        assert_eq!(format_to_extension(&extension_to_format(ext)), ext);
    }
}

fn reference(kind: &str, conversation: &str, message: &str) -> TtsCacheReference {
    TtsCacheReference {
        conversation_kind: kind.to_string(),
        conversation_id: conversation.to_string(),
        message_id: message.to_string(),
        variant_id: None,
        character_id: None,
    }
}

#[test]
fn cache_context_validation() {
    let ok = TtsCacheContext::new("p".to_string(), "m".to_string(), "v".to_string(), None);
    assert_eq!(validate_context(&ok), Ok(()));
    let blank = TtsCacheContext::new("p".to_string(), " ".to_string(), "v".to_string(), None);
    assert_eq!(
        validate_context(&blank),
        Err("TTS cache context requires provider, model, and voice IDs".to_string())
    );
    let kind = TtsCacheContext::new(
        "p".to_string(),
        "m".to_string(),
        "v".to_string(),
        Some(reference("chat", "c", "m")),
    );
    assert_eq!(
        validate_context(&kind),
        Err("Unsupported TTS cache conversation kind: chat".to_string())
    );
    let missing = TtsCacheContext::new(
        "p".to_string(),
        "m".to_string(),
        "v".to_string(),
        Some(reference("group_session", "c", "")),
    );
    assert_eq!(
        validate_context(&missing),
        Err("TTS cache reference requires conversation and message IDs".to_string())
    );
    let good = TtsCacheContext::new(
        "p".to_string(),
        "m".to_string(),
        "v".to_string(),
        Some(reference("session", "c", "m")),
    );
    assert_eq!(validate_context(&good), Ok(()));
}

#[test]
fn timestamps_must_fit_a_sqlite_integer() {
    assert_eq!(timestamp_millis(1_700_000_000_000), Ok(1_700_000_000_000));
    assert_eq!(timestamp_millis(i64::MAX as u64), Ok(i64::MAX));
    assert_eq!(
        timestamp_millis(i64::MAX as u64 + 1),
        Err("Current timestamp exceeds SQLite integer range".to_string())
    );
}

#[test]
fn stored_sizes_saturate_at_i64_max() {
    assert_eq!(stored_size(0), 0);
    assert_eq!(stored_size(4096), 4096);
    assert_eq!(stored_size(u64::MAX), i64::MAX);
}

#[test]
fn stored_variant_is_empty_without_a_variant() {
    let mut reference = TtsCacheReference {
        conversation_kind: "session".to_string(),
        conversation_id: "c".to_string(),
        message_id: "m".to_string(),
        variant_id: None,
        character_id: None,
    };
    assert_eq!(stored_variant(&reference), "");
    reference.variant_id = Some("v2".to_string());
    assert_eq!(stored_variant(&reference), "v2");
}

#[test]
fn newer_metadata_schemas_are_refused() {
    assert_eq!(check_backup_schema(0), Ok(()));
    assert_eq!(check_backup_schema(BACKUP_SCHEMA_VERSION), Ok(()));
    assert_eq!(
        check_backup_schema(BACKUP_SCHEMA_VERSION + 1),
        Err("Unsupported TTS cache metadata schema version: 2".to_string())
    );
}

#[test]
fn audio_track_answers_are_interpreted() {
    assert_eq!(pcm_write_result(640, 640), Ok(()));
    assert_eq!(
        pcm_write_result(-3, 640),
        Err("Android AudioTrack write failed: -3".to_string())
    );
    assert_eq!(
        pcm_write_result(320, 640),
        Err("Android AudioTrack wrote 320 of 640 bytes".to_string())
    );
    assert_eq!(pcm_write_result(0, 0), Ok(()));
}
