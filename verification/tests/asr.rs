use lettuce_core::asr::audio::{resampled_len, wav_sample_decoding, SampleDecoding, WavSampleFormat};
use lettuce_core::asr::catalog::{
    available_models, download_metadata, download_plan, is_within_directory, join_path,
    on_device_installed, sense_voice_preset, whisper_installed, whisper_preset,
    zipformer_ctc_preset, AsrInstalledWhisperModel, AsrWhisperModelPreset, DownloadPlan,
};
use lettuce_core::asr::engine::{
    audio_end_ms, bridge_threads, check_pcm_request, keeps_model_loaded, AsrEngine, AsrModelRef,
};
use lettuce_core::asr::sense_voice;
use lettuce_core::asr::zipformer_ctc::{self, needs_punctuation, MissingModelFile};
use lettuce_core::tts::cache_metadata::TtsCacheReference;
use lettuce_core::tts::usage::{usage_update, UsageTables};

fn whisper(id: &str) -> AsrWhisperModelPreset {
    AsrWhisperModelPreset {
        id: id.to_string(),
        filename: format!("{id}.bin"),
        label: id.to_uppercase(),
        repo: "ggerganov/whisper.cpp".to_string(),
        download_url: format!("https://example.com/{id}.bin"),
        size_bytes: 75,
        english_only: true,
        quantized: false,
        recommended: true,
        recommended_for_mobile: false,
        recommended_for_desktop: true,
    }
}

#[test]
fn on_device_presets_describe_their_files() {
    let sense = sense_voice_preset();
    assert_eq!(sense.id, "sensevoice-small-int8");
    assert_eq!(sense.engine, AsrEngine::SenseVoice);
    assert_eq!(sense.size_bytes, 239_316_000);
    assert_eq!(
        sense.download_url,
        "https://huggingface.co/csukuangfj/sherpa-onnx-sense-voice-zh-en-ja-ko-yue-2024-07-17/resolve/main/model.int8.onnx"
    );
    assert!(sense.recommended_for_mobile && !sense.supports_gpu);
    let zip = zipformer_ctc_preset();
    assert_eq!(zip.punctuation_filename.as_deref(), Some("punctuation.int8.onnx"));
    assert_eq!(zip.size_bytes, 367_074_356 + 13_366 + 75_519_198);
}

#[test]
fn whisper_entries_support_gpu_and_prompts() {
    let preset = whisper_preset(whisper("tiny"));
    assert_eq!(preset.engine, AsrEngine::Whisper);
    assert!(preset.supports_gpu && preset.supports_initial_prompt);
    assert!(preset.tokens_filename.is_none());
    assert!(preset.english_only);
    let installed = whisper_installed(AsrInstalledWhisperModel {
        id: "tiny".to_string(),
        filename: "tiny.bin".to_string(),
        label: "Tiny".to_string(),
        path: "/m/tiny.bin".to_string(),
        size_bytes: 9,
        english_only: false,
        quantized: true,
    });
    assert_eq!(installed.path, "/m/tiny.bin");
    assert!(installed.supports_gpu);
}

#[test]
fn catalog_falls_back_to_on_device_models() {
    let offered = available_models(true, Ok(vec![whisper("base")])).expect("models");
    assert_eq!(offered.len(), 3);
    assert_eq!(offered[2].id, "base");
    assert_eq!(available_models(true, Err("offline".to_string())).expect("fallback").len(), 2);
    assert_eq!(
        available_models(false, Err("offline".to_string())).err(),
        Some("offline".to_string())
    );
    assert_eq!(available_models(false, Ok(vec![])).expect("empty").len(), 0);
}

#[test]
fn downloads_are_known_by_model_id() {
    match download_plan(AsrEngine::ZipformerCtc, "zipformer-ctc-zh-int8", true) {
        Ok(DownloadPlan::OnDevice { files, .. }) => {
            assert_eq!(files.len(), 3);
            assert_eq!(files[2].destination_file, "punctuation.int8.onnx");
            assert_eq!(files[2].role, "punctuation");
        }
        _ => panic!("expected a zipformer plan"),
    }
    assert_eq!(
        download_plan(AsrEngine::SenseVoice, "other", true).err(),
        Some("Unknown SenseVoice model: other".to_string())
    );
    assert_eq!(
        download_plan(AsrEngine::SenseVoice, "other", false).err(),
        Some("Unknown SenseVoice model: other".to_string())
    );
    assert_eq!(
        download_plan(AsrEngine::SenseVoice, "sensevoice-small-int8", false).err(),
        Some("SenseVoice is currently available on Android only".to_string())
    );
    assert_eq!(
        download_plan(AsrEngine::ZipformerCtc, "zipformer-ctc-zh-int8", false).err(),
        Some("Zipformer CTC is currently available on Android only".to_string())
    );
    match download_plan(AsrEngine::SenseVoice, "sensevoice-small-int8", true) {
        Ok(DownloadPlan::OnDevice { model_id, files, .. }) => {
            assert_eq!(model_id, "sensevoice-small-int8");
            assert_eq!(files.len(), 2);
            assert_eq!(files[1].source_file, "tokens.txt");
            assert!(files[0].download_url.ends_with("/resolve/main/model.int8.onnx"));
        }
        _ => panic!("expected a SenseVoice plan"),
    }
    assert!(matches!(download_plan(AsrEngine::Whisper, "x", false), Ok(DownloadPlan::Whisper)));
    let meta = download_metadata("/models/sv", "sv", "SV", "https://u".to_string(), "tokens.txt", "tokens");
    assert_eq!(meta.install_id, "asr-sv");
    assert_eq!(meta.destination_path, "/models/sv/tokens.txt");
    assert_eq!(join_path("/m/", "a"), "/m/a");
    assert_eq!(join_path("", "a"), "a");
}

#[test]
fn installed_models_sum_their_files() {
    let model = on_device_installed(
        AsrEngine::ZipformerCtc,
        "/m/model.int8.onnx".to_string(),
        "/m/tokens.txt".to_string(),
        Some("/m/punctuation.int8.onnx".to_string()),
        &vec![10, 20, 30],
    );
    assert_eq!(model.id, "zipformer-ctc-zh-int8");
    assert_eq!(model.size_bytes, 60);
    assert!(is_within_directory("/a/b", "/a/b/c"));
    assert!(is_within_directory("/a/b", "/a/b"));
    assert!(!is_within_directory("/a/b", "/a/bc"));
    assert!(is_within_directory("/", "/x"));
}

#[test]
fn requests_are_checked_and_defaulted() {
    assert_eq!(bridge_threads(None), 4);
    assert_eq!(bridge_threads(Some(0)), 1);
    assert_eq!(bridge_threads(Some(usize::MAX)), i32::MAX);
    assert_eq!(audio_end_ms(32_000), 2000);
    assert!(keeps_model_loaded(None));
    assert!(!keeps_model_loaded(Some(false)));
    assert_eq!(check_pcm_request(16000, 8, Some(0)), Ok(1));
    assert_eq!(check_pcm_request(16000, 8, Some(2)), Ok(2));
    assert_eq!(
        check_pcm_request(0, 8, None),
        Err("Sample rate must be greater than zero".to_string())
    );
    assert_eq!(
        check_pcm_request(16000, 6, None),
        Err("PCM payload length 6 is not a multiple of 4 (f32 LE)".to_string())
    );
    assert_eq!(check_pcm_request(16000, 0, None), Err("PCM payload is empty".to_string()));
}

#[test]
fn languages_and_model_files_are_resolved() {
    assert_eq!(sense_voice::normalized_language(Some(" zh-CN ")), "zh");
    assert_eq!(sense_voice::normalized_language(Some("AUTO")), "auto");
    assert_eq!(sense_voice::normalized_language(Some("Yue")), "yue");
    assert_eq!(sense_voice::normalized_language(Some("fr")), "auto");
    assert_eq!(sense_voice::normalized_language(None), "auto");
    let model = AsrModelRef {
        engine: AsrEngine::ZipformerCtc,
        path: "/m/model".to_string(),
        tokens_path: Some("/m/tokens".to_string()),
        punctuation_path: Some("  ".to_string()),
    };
    assert_eq!(zipformer_ctc::resolved_model(&model).err(), Some(MissingModelFile::Punctuation));
    assert_eq!(
        sense_voice::resolved_model(&model).ok(),
        Some(("/m/model".to_string(), "/m/tokens".to_string()))
    );
    assert!(needs_punctuation(" 你好 "));
    assert!(!needs_punctuation("  "));
    assert_eq!(
        sense_voice::unsupported::<()>().err(),
        Some("SenseVoice is currently available on Android only".to_string())
    );
}

fn reference(kind: &str, variant: Option<&str>) -> TtsCacheReference {
    TtsCacheReference {
        conversation_kind: kind.to_string(),
        conversation_id: "conv".to_string(),
        message_id: "msg".to_string(),
        variant_id: variant.map(|v| v.to_string()),
        character_id: None,
    }
}

#[test]
fn spoken_characters_are_recorded_per_conversation_kind() {
    let update = usage_update(&reference("session", Some(" v1 ")), 42).expect("session");
    assert_eq!(update.tables, UsageTables::Session);
    assert_eq!(update.value, 42);
    assert_eq!(update.variant_id.as_deref(), Some("v1"));
    let update = usage_update(&reference("group_session", Some("  ")), u64::MAX).expect("group");
    assert_eq!(update.tables, UsageTables::GroupSession);
    assert_eq!(update.value, i64::MAX);
    assert!(update.variant_id.is_none());
    assert_eq!(
        usage_update(&reference("dm", None), 1).err(),
        Some("Unsupported TTS usage conversation kind: dm".to_string())
    );
}

#[test]
fn wav_headers_choose_the_sample_decoding() {
    assert_eq!(
        wav_sample_decoding(WavSampleFormat::Float, 32, 2, 44_100),
        Ok(SampleDecoding::Float)
    );
    assert_eq!(
        wav_sample_decoding(WavSampleFormat::Int, 16, 1, 16_000),
        Ok(SampleDecoding::Int16)
    );
    assert_eq!(
        wav_sample_decoding(WavSampleFormat::Int, 8, 1, 8_000),
        Ok(SampleDecoding::Int16)
    );
    assert_eq!(
        wav_sample_decoding(WavSampleFormat::Int, 24, 2, 48_000),
        Ok(SampleDecoding::Int32 { full_scale: 8_388_607 })
    );
    assert_eq!(
        wav_sample_decoding(WavSampleFormat::Int, 32, 1, 48_000),
        Ok(SampleDecoding::Int32 { full_scale: 2_147_483_647 })
    );
    assert_eq!(
        wav_sample_decoding(WavSampleFormat::Int, 64, 1, 48_000),
        Err("Unsupported WAV format: Int 64 bits".to_string())
    );
    assert_eq!(
        wav_sample_decoding(WavSampleFormat::Int, 16, 0, 16_000),
        Err("WAV file has zero channels".to_string())
    );
    assert_eq!(
        wav_sample_decoding(WavSampleFormat::Float, 32, 1, 0),
        Err("WAV file has zero sample rate".to_string())
    );
}

#[test]
fn resampled_clip_lengths() {
    assert_eq!(resampled_len(480, 16_000), 480);
    assert_eq!(resampled_len(0, 44_100), 0);
    assert_eq!(resampled_len(48_000, 48_000), 16_000);
    assert_eq!(resampled_len(8_000, 8_000), 16_000);
    assert_eq!(resampled_len(1, 48_000), 1);
}
