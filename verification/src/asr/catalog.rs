//! The speech-recognition model catalog: built-in on-device presets, Whisper entries, what a
//! download queues, and installed models.
use vstd::prelude::*;

use super::engine::AsrEngine;
use crate::text::{push_str, str_eq, starts_with};

verus! {

pub const SENSE_VOICE_ID: &'static str = "sensevoice-small-int8";
pub const SENSE_VOICE_REPO: &'static str = "csukuangfj/sherpa-onnx-sense-voice-zh-en-ja-ko-yue-2024-07-17";
pub const SENSE_VOICE_RESOLVE_BASE: &'static str = "https://huggingface.co/csukuangfj/sherpa-onnx-sense-voice-zh-en-ja-ko-yue-2024-07-17/resolve/main";
pub const SENSE_VOICE_MODEL_FILE: &'static str = "model.int8.onnx";
pub const SENSE_VOICE_TOKENS_FILE: &'static str = "tokens.txt";
pub const SENSE_VOICE_MODEL_SIZE: u64 = 239000000;
pub const SENSE_VOICE_TOKENS_SIZE: u64 = 316000;
pub const SENSE_VOICE_LABEL: &'static str = "SenseVoiceSmall INT8";

pub const ZIPFORMER_CTC_ID: &'static str = "zipformer-ctc-zh-int8";
pub const ZIPFORMER_CTC_REPO: &'static str = "csukuangfj/sherpa-onnx-zipformer-ctc-zh-int8-2025-07-03";
pub const ZIPFORMER_CTC_RESOLVE_BASE: &'static str = "https://huggingface.co/csukuangfj/sherpa-onnx-zipformer-ctc-zh-int8-2025-07-03/resolve/main";
pub const ZIPFORMER_CTC_MODEL_FILE: &'static str = "model.int8.onnx";
pub const ZIPFORMER_CTC_TOKENS_FILE: &'static str = "tokens.txt";
pub const ZIPFORMER_CTC_MODEL_SIZE: u64 = 367074356;
pub const ZIPFORMER_CTC_TOKENS_SIZE: u64 = 13366;
pub const ZIPFORMER_PUNCT_REPO: &'static str = "lorneluo/sherpa-onnx-punct-ct-transformer-zh-en-vocab272727-2024-04-12-int8";
pub const ZIPFORMER_PUNCT_RESOLVE_BASE: &'static str = "https://huggingface.co/lorneluo/sherpa-onnx-punct-ct-transformer-zh-en-vocab272727-2024-04-12-int8/resolve/main";
pub const ZIPFORMER_PUNCT_SOURCE_FILE: &'static str = "model.int8.onnx";
pub const ZIPFORMER_PUNCT_FILE: &'static str = "punctuation.int8.onnx";
pub const ZIPFORMER_PUNCT_SIZE: u64 = 75519198;
pub const ZIPFORMER_CTC_LABEL: &'static str = "Zipformer CTC Chinese INT8 + Punctuation";

/// A model that can be downloaded.
#[derive(Debug, Clone)]
pub struct AsrModelPreset {
    pub id: String,
    pub engine: AsrEngine,
    pub filename: String,
    pub tokens_filename: Option<String>,
    pub punctuation_filename: Option<String>,
    pub label: String,
    pub repo: String,
    pub download_url: String,
    pub size_bytes: u64,
    pub english_only: bool,
    pub quantized: bool,
    pub recommended: bool,
    pub recommended_for_mobile: bool,
    pub recommended_for_desktop: bool,
    pub supports_gpu: bool,
    pub supports_initial_prompt: bool,
}

/// A model on disk.
#[derive(Debug, Clone)]
pub struct AsrInstalledModel {
    pub id: String,
    pub engine: AsrEngine,
    pub filename: String,
    pub label: String,
    pub path: String,
    pub tokens_path: Option<String>,
    pub punctuation_path: Option<String>,
    pub size_bytes: u64,
    pub english_only: bool,
    pub quantized: bool,
    pub supports_gpu: bool,
    pub supports_initial_prompt: bool,
}

/// A Whisper model of the remote catalog.
#[derive(Debug, Clone)]
pub struct AsrWhisperModelPreset {
    pub id: String,
    pub filename: String,
    pub label: String,
    pub repo: String,
    pub download_url: String,
    pub size_bytes: u64,
    pub english_only: bool,
    pub quantized: bool,
    pub recommended: bool,
    pub recommended_for_mobile: bool,
    pub recommended_for_desktop: bool,
}

/// A Whisper model on disk.
#[derive(Debug, Clone)]
pub struct AsrInstalledWhisperModel {
    pub id: String,
    pub filename: String,
    pub label: String,
    pub path: String,
    pub size_bytes: u64,
    pub english_only: bool,
    pub quantized: bool,
}

fn joined_url(base: &str, file: &str) -> (r: String)
    ensures
        r@ == base@ + "/"@ + file@,
{
    let mut out = String::new();
    push_str(&mut out, base);
    push_str(&mut out, "/");
    push_str(&mut out, file);
    out
}

/// The on-device quantised models are recommended for mobile and take no GPU or prompt.
pub open spec fn on_device_flags(p: AsrModelPreset) -> bool {
    &&& !p.english_only
    &&& p.quantized
    &&& p.recommended
    &&& p.recommended_for_mobile
    &&& !p.recommended_for_desktop
    &&& !p.supports_gpu
    &&& !p.supports_initial_prompt
}

/// SenseVoiceSmall INT8: model and tokens from its repository.
pub fn sense_voice_preset() -> (r: AsrModelPreset)
    ensures
        r.id@ == SENSE_VOICE_ID@,
        r.engine == AsrEngine::SenseVoice,
        r.filename@ == SENSE_VOICE_MODEL_FILE@,
        r.tokens_filename matches Some(t) && t@ == SENSE_VOICE_TOKENS_FILE@,
        r.punctuation_filename is None,
        r.label@ == SENSE_VOICE_LABEL@,
        r.repo@ == SENSE_VOICE_REPO@,
        r.download_url@ == SENSE_VOICE_RESOLVE_BASE@ + "/"@ + SENSE_VOICE_MODEL_FILE@,
        r.size_bytes == SENSE_VOICE_MODEL_SIZE + SENSE_VOICE_TOKENS_SIZE,
        on_device_flags(r),
{
    AsrModelPreset {
        id: SENSE_VOICE_ID.to_owned(),
        engine: AsrEngine::SenseVoice,
        filename: SENSE_VOICE_MODEL_FILE.to_owned(),
        tokens_filename: Some(SENSE_VOICE_TOKENS_FILE.to_owned()),
        punctuation_filename: None,
        label: SENSE_VOICE_LABEL.to_owned(),
        repo: SENSE_VOICE_REPO.to_owned(),
        download_url: joined_url(SENSE_VOICE_RESOLVE_BASE, SENSE_VOICE_MODEL_FILE),
        size_bytes: SENSE_VOICE_MODEL_SIZE + SENSE_VOICE_TOKENS_SIZE,
        english_only: false,
        quantized: true,
        recommended: true,
        recommended_for_mobile: true,
        recommended_for_desktop: false,
        supports_gpu: false,
        supports_initial_prompt: false,
    }
}

/// Zipformer CTC Chinese INT8 with its punctuation model.
pub fn zipformer_ctc_preset() -> (r: AsrModelPreset)
    ensures
        r.id@ == ZIPFORMER_CTC_ID@,
        r.engine == AsrEngine::ZipformerCtc,
        r.filename@ == ZIPFORMER_CTC_MODEL_FILE@,
        r.tokens_filename matches Some(t) && t@ == ZIPFORMER_CTC_TOKENS_FILE@,
        r.punctuation_filename matches Some(p) && p@ == ZIPFORMER_PUNCT_FILE@,
        r.label@ == ZIPFORMER_CTC_LABEL@,
        r.repo@ == ZIPFORMER_CTC_REPO@,
        r.download_url@ == ZIPFORMER_CTC_RESOLVE_BASE@ + "/"@ + ZIPFORMER_CTC_MODEL_FILE@,
        r.size_bytes == ZIPFORMER_CTC_MODEL_SIZE + ZIPFORMER_CTC_TOKENS_SIZE + ZIPFORMER_PUNCT_SIZE,
        on_device_flags(r),
{
    AsrModelPreset {
        id: ZIPFORMER_CTC_ID.to_owned(),
        engine: AsrEngine::ZipformerCtc,
        filename: ZIPFORMER_CTC_MODEL_FILE.to_owned(),
        tokens_filename: Some(ZIPFORMER_CTC_TOKENS_FILE.to_owned()),
        punctuation_filename: Some(ZIPFORMER_PUNCT_FILE.to_owned()),
        label: ZIPFORMER_CTC_LABEL.to_owned(),
        repo: ZIPFORMER_CTC_REPO.to_owned(),
        download_url: joined_url(ZIPFORMER_CTC_RESOLVE_BASE, ZIPFORMER_CTC_MODEL_FILE),
        size_bytes: ZIPFORMER_CTC_MODEL_SIZE + ZIPFORMER_CTC_TOKENS_SIZE + ZIPFORMER_PUNCT_SIZE,
        english_only: false,
        quantized: true,
        recommended: true,
        recommended_for_mobile: true,
        recommended_for_desktop: false,
        supports_gpu: false,
        supports_initial_prompt: false,
    }
}

/// A Whisper catalog entry as a preset: its own fields, no extra files, GPU and prompts
/// supported.
pub fn whisper_preset(model: AsrWhisperModelPreset) -> (r: AsrModelPreset)
    ensures
        r.id == model.id,
        r.engine == AsrEngine::Whisper,
        r.filename == model.filename,
        r.tokens_filename is None,
        r.punctuation_filename is None,
        r.label == model.label,
        r.repo == model.repo,
        r.download_url == model.download_url,
        r.size_bytes == model.size_bytes,
        r.english_only == model.english_only,
        r.quantized == model.quantized,
        r.recommended == model.recommended,
        r.recommended_for_mobile == model.recommended_for_mobile,
        r.recommended_for_desktop == model.recommended_for_desktop,
        r.supports_gpu,
        r.supports_initial_prompt,
{
    AsrModelPreset {
        id: model.id,
        engine: AsrEngine::Whisper,
        filename: model.filename,
        tokens_filename: None,
        punctuation_filename: None,
        label: model.label,
        repo: model.repo,
        download_url: model.download_url,
        size_bytes: model.size_bytes,
        english_only: model.english_only,
        quantized: model.quantized,
        recommended: model.recommended,
        recommended_for_mobile: model.recommended_for_mobile,
        recommended_for_desktop: model.recommended_for_desktop,
        supports_gpu: true,
        supports_initial_prompt: true,
    }
}

/// An installed Whisper model as an installed model.
pub fn whisper_installed(model: AsrInstalledWhisperModel) -> (r: AsrInstalledModel)
    ensures
        r.id == model.id,
        r.engine == AsrEngine::Whisper,
        r.filename == model.filename,
        r.label == model.label,
        r.path == model.path,
        r.tokens_path is None,
        r.punctuation_path is None,
        r.size_bytes == model.size_bytes,
        r.english_only == model.english_only,
        r.quantized == model.quantized,
        r.supports_gpu,
        r.supports_initial_prompt,
{
    AsrInstalledModel {
        id: model.id,
        engine: AsrEngine::Whisper,
        filename: model.filename,
        label: model.label,
        path: model.path,
        tokens_path: None,
        punctuation_path: None,
        size_bytes: model.size_bytes,
        english_only: model.english_only,
        quantized: model.quantized,
        supports_gpu: true,
        supports_initial_prompt: true,
    }
}

/// `Path::join` of a directory and a relative file name.
pub open spec fn joined_path(dir: Seq<char>, file: Seq<char>) -> Seq<char> {
    if dir.len() == 0 {
        file
    } else if dir.last() == '/' {
        dir + file
    } else {
        dir + "/"@ + file
    }
}

pub fn join_path(dir: &str, file: &str) -> (r: String)
    ensures
        r@ == joined_path(dir@, file@),
{
    let v = crate::text::chars_of(dir);
    let mut out = String::new();
    push_str(&mut out, dir);
    if v.len() > 0 && v[v.len() - 1] != '/' {
        push_str(&mut out, "/");
    }
    push_str(&mut out, file);
    proof {
        reveal_strlit("/");
    }
    out
}

/// What a queued download carries.
#[derive(Debug, Clone)]
pub struct QueueDownloadMetadata {
    pub install_id: String,
    pub display_name: String,
    pub download_role: String,
    pub queue_kind: String,
    pub asset_root: String,
    pub install_kind: String,
    pub variant: String,
    pub download_url: String,
    pub destination_path: String,
}

/// A model file's download: installed as `asr-<model id>` under the install directory, an
/// `asr` queue entry of kind `asr-model`.
pub fn download_metadata(
    install_dir: &str,
    model_id: &str,
    label: &str,
    download_url: String,
    destination_filename: &str,
    role: &str,
) -> (r: QueueDownloadMetadata)
    ensures
        r.install_id@ == "asr-"@ + model_id@,
        r.display_name@ == label@,
        r.download_role@ == role@,
        r.queue_kind@ == "asr"@,
        r.asset_root@ == install_dir@,
        r.install_kind@ == "asr-model"@,
        r.variant@ == model_id@,
        r.download_url == download_url,
        r.destination_path@ == joined_path(install_dir@, destination_filename@),
{
    let mut install_id = String::new();
    push_str(&mut install_id, "asr-");
    push_str(&mut install_id, model_id);
    QueueDownloadMetadata {
        install_id,
        display_name: label.to_owned(),
        download_role: role.to_owned(),
        queue_kind: "asr".to_owned(),
        asset_root: install_dir.to_owned(),
        install_kind: "asr-model".to_owned(),
        variant: model_id.to_owned(),
        download_url,
        destination_path: join_path(install_dir, destination_filename),
    }
}

/// One file a download queues: from which repository and file, to which file name, in which
/// role.
#[derive(Debug, Clone)]
pub struct QueuedModelFile {
    pub repo: String,
    pub source_file: String,
    pub download_url: String,
    pub destination_file: String,
    pub role: String,
}

/// What downloading a model queues.
#[derive(Debug)]
pub enum DownloadPlan {
    /// Whisper models are downloaded through the Whisper catalog.
    Whisper,
    /// The files of an on-device model, model file first.
    OnDevice { model_id: String, label: String, files: Vec<QueuedModelFile> },
}

fn queued(repo: &str, base: &str, source: &str, destination: &str, role: &str) -> (r: QueuedModelFile)
    ensures
        r.repo@ == repo@,
        r.source_file@ == source@,
        r.download_url@ == base@ + "/"@ + source@,
        r.destination_file@ == destination@,
        r.role@ == role@,
{
    QueuedModelFile {
        repo: repo.to_owned(),
        source_file: source.to_owned(),
        download_url: joined_url(base, source),
        destination_file: destination.to_owned(),
        role: role.to_owned(),
    }
}

/// A queued file as `(repo, source file, download URL, destination file, role)`.
pub open spec fn queued_view(f: QueuedModelFile) -> (Seq<char>, Seq<char>, Seq<char>, Seq<char>, Seq<char>) {
    (f.repo@, f.source_file@, f.download_url@, f.destination_file@, f.role@)
}

pub open spec fn queued_views(v: Seq<QueuedModelFile>) -> Seq<(Seq<char>, Seq<char>, Seq<char>, Seq<char>, Seq<char>)> {
    Seq::new(v.len(), |i: int| queued_view(v[i]))
}

/// A file of a repository, downloaded from its resolve URL.
pub open spec fn planned(repo: &str, base: &str, source: &str, destination: &str, role: &str) -> (
    Seq<char>,
    Seq<char>,
    Seq<char>,
    Seq<char>,
    Seq<char>,
) {
    (repo@, source@, base@ + "/"@ + source@, destination@, role@)
}

/// SenseVoice and Zipformer CTC downloads are known only by their own ids and run on Android
/// only; SenseVoice queues its model and tokens, Zipformer CTC its model, tokens and
/// punctuation model (saved under its own name). Whisper models go through the Whisper
/// catalog.
pub fn download_plan(engine: AsrEngine, model_id: &str, on_android: bool) -> (r: Result<DownloadPlan, String>)
    ensures
        match engine {
            AsrEngine::Whisper => r matches Ok(DownloadPlan::Whisper),
            AsrEngine::SenseVoice => if model_id@ != SENSE_VOICE_ID@ {
                r matches Err(e) && e@ == "Unknown SenseVoice model: "@ + model_id@
            } else if !on_android {
                r matches Err(e) && e@ == "SenseVoice is currently available on Android only"@
            } else {
                r matches Ok(DownloadPlan::OnDevice { model_id: id, label, files }) && id@ == SENSE_VOICE_ID@
                    && label@ == SENSE_VOICE_LABEL@ && queued_views(files@) == seq![
                    planned(SENSE_VOICE_REPO, SENSE_VOICE_RESOLVE_BASE, SENSE_VOICE_MODEL_FILE, SENSE_VOICE_MODEL_FILE, "model"),
                    planned(SENSE_VOICE_REPO, SENSE_VOICE_RESOLVE_BASE, SENSE_VOICE_TOKENS_FILE, SENSE_VOICE_TOKENS_FILE, "tokens"),
                ]
            },
            AsrEngine::ZipformerCtc => if model_id@ != ZIPFORMER_CTC_ID@ {
                r matches Err(e) && e@ == "Unknown Zipformer CTC model: "@ + model_id@
            } else if !on_android {
                r matches Err(e) && e@ == "Zipformer CTC is currently available on Android only"@
            } else {
                r matches Ok(DownloadPlan::OnDevice { model_id: id, label, files }) && id@ == ZIPFORMER_CTC_ID@
                    && label@ == ZIPFORMER_CTC_LABEL@ && queued_views(files@) == seq![
                    planned(ZIPFORMER_CTC_REPO, ZIPFORMER_CTC_RESOLVE_BASE, ZIPFORMER_CTC_MODEL_FILE, ZIPFORMER_CTC_MODEL_FILE, "model"),
                    planned(ZIPFORMER_CTC_REPO, ZIPFORMER_CTC_RESOLVE_BASE, ZIPFORMER_CTC_TOKENS_FILE, ZIPFORMER_CTC_TOKENS_FILE, "tokens"),
                    planned(ZIPFORMER_PUNCT_REPO, ZIPFORMER_PUNCT_RESOLVE_BASE, ZIPFORMER_PUNCT_SOURCE_FILE, ZIPFORMER_PUNCT_FILE, "punctuation"),
                ]
            },
        },
{
    match engine {
        AsrEngine::Whisper => Ok(DownloadPlan::Whisper),
        AsrEngine::SenseVoice => {
            if !str_eq(model_id, SENSE_VOICE_ID) {
                let mut message = "Unknown SenseVoice model: ".to_owned();
                push_str(&mut message, model_id);
                return Err(message);
            }
            if !on_android {
                return Err("SenseVoice is currently available on Android only".to_owned());
            }
            let files = vec![
                queued(SENSE_VOICE_REPO, SENSE_VOICE_RESOLVE_BASE, SENSE_VOICE_MODEL_FILE, SENSE_VOICE_MODEL_FILE, "model"),
                queued(SENSE_VOICE_REPO, SENSE_VOICE_RESOLVE_BASE, SENSE_VOICE_TOKENS_FILE, SENSE_VOICE_TOKENS_FILE, "tokens"),
            ];
            assert(queued_views(files@) =~= seq![
                planned(SENSE_VOICE_REPO, SENSE_VOICE_RESOLVE_BASE, SENSE_VOICE_MODEL_FILE, SENSE_VOICE_MODEL_FILE, "model"),
                planned(SENSE_VOICE_REPO, SENSE_VOICE_RESOLVE_BASE, SENSE_VOICE_TOKENS_FILE, SENSE_VOICE_TOKENS_FILE, "tokens"),
            ]);
            Ok(DownloadPlan::OnDevice {
                model_id: SENSE_VOICE_ID.to_owned(),
                label: SENSE_VOICE_LABEL.to_owned(),
                files,
            })
        },
        AsrEngine::ZipformerCtc => {
            if !str_eq(model_id, ZIPFORMER_CTC_ID) {
                let mut message = "Unknown Zipformer CTC model: ".to_owned();
                push_str(&mut message, model_id);
                return Err(message);
            }
            if !on_android {
                return Err("Zipformer CTC is currently available on Android only".to_owned());
            }
            let files = vec![
                queued(ZIPFORMER_CTC_REPO, ZIPFORMER_CTC_RESOLVE_BASE, ZIPFORMER_CTC_MODEL_FILE, ZIPFORMER_CTC_MODEL_FILE, "model"),
                queued(ZIPFORMER_CTC_REPO, ZIPFORMER_CTC_RESOLVE_BASE, ZIPFORMER_CTC_TOKENS_FILE, ZIPFORMER_CTC_TOKENS_FILE, "tokens"),
                queued(ZIPFORMER_PUNCT_REPO, ZIPFORMER_PUNCT_RESOLVE_BASE, ZIPFORMER_PUNCT_SOURCE_FILE, ZIPFORMER_PUNCT_FILE, "punctuation"),
            ];
            assert(queued_views(files@) =~= seq![
                planned(ZIPFORMER_CTC_REPO, ZIPFORMER_CTC_RESOLVE_BASE, ZIPFORMER_CTC_MODEL_FILE, ZIPFORMER_CTC_MODEL_FILE, "model"),
                planned(ZIPFORMER_CTC_REPO, ZIPFORMER_CTC_RESOLVE_BASE, ZIPFORMER_CTC_TOKENS_FILE, ZIPFORMER_CTC_TOKENS_FILE, "tokens"),
                planned(ZIPFORMER_PUNCT_REPO, ZIPFORMER_PUNCT_RESOLVE_BASE, ZIPFORMER_PUNCT_SOURCE_FILE, ZIPFORMER_PUNCT_FILE, "punctuation"),
            ]);
            Ok(DownloadPlan::OnDevice {
                model_id: ZIPFORMER_CTC_ID.to_owned(),
                label: ZIPFORMER_CTC_LABEL.to_owned(),
                files,
            })
        },
    }
}

/// A path lies in a directory when it is the directory or continues it after a `/`
/// (`Path::starts_with` on canonical paths).
pub open spec fn within_directory(root: Seq<char>, path: Seq<char>) -> bool {
    path == root || (starts_with(path, root) && (root.len() > 0 && root.last() == '/' || path.len() > root.len() && path[root.len() as int] == '/'))
}

/// A path that extends a directory's path lies in it exactly when the extension starts a new
/// component (a sibling such as `/models/asr-x2` is not inside `/models/asr-x`), and a file
/// joined to a directory lies in it.
pub proof fn law_within_directory(root: Seq<char>, rest: Seq<char>, file: Seq<char>)
    requires
        root.len() > 0,
    ensures
        within_directory(root, root + rest) <==> (rest.len() == 0 || rest[0] == '/' || root.last() == '/'),
        within_directory(root, joined_path(root, file)),
{
    reveal_strlit("/");
    let p = root + rest;
    assert(p.subrange(0, root.len() as int) =~= root);
    if rest.len() == 0 {
        assert(p =~= root);
    }
    if rest.len() > 0 {
        assert(p[root.len() as int] == rest[0]);
        assert(p.len() != root.len());
    }
    let j = joined_path(root, file);
    if root.last() == '/' {
        assert(j.subrange(0, root.len() as int) =~= root);
    } else {
        assert(j =~= root + ("/"@ + file));
        assert(j.subrange(0, root.len() as int) =~= root);
        assert(j[root.len() as int] == '/');
    }
}

pub fn is_within_directory(root: &str, path: &str) -> (r: bool)
    ensures
        r == within_directory(root@, path@),
{
    let p = crate::text::chars_of(path);
    let r = crate::text::chars_of(root);
    if crate::text::chars_eq(&p, &r) {
        return true;
    }
    if !crate::text::starts_with_exec(&p, &r) {
        return false;
    }
    (r.len() > 0 && r[r.len() - 1] == '/') || (p.len() > r.len() && p[r.len()] == '/')
}

/// Where the Whisper entries start in the offered list.
pub open spec fn whisper_offset(on_android: bool) -> int {
    if on_android {
        2
    } else {
        0
    }
}

/// The models offered for download: on Android the two on-device presets first, then the
/// Whisper catalog; when the Whisper catalog cannot be fetched the on-device presets alone are
/// offered, and with none of those the fetch error is the answer.
pub fn available_models(on_android: bool, whisper: Result<Vec<AsrWhisperModelPreset>, String>) -> (r:
    Result<Vec<AsrModelPreset>, String>)
    ensures
        match whisper {
            Ok(w) => r matches Ok(models) && models@.len() == whisper_offset(on_android) + w@.len()
                && forall|k: int|
                    0 <= k < w@.len() ==> models@[whisper_offset(on_android) + k].id@ == (
                    #[trigger] w@[k]).id@ && models@[whisper_offset(on_android) + k].engine
                        == AsrEngine::Whisper,
            Err(e) => if on_android {
                r matches Ok(models) && models@.len() == 2
            } else {
                r matches Err(e2) && e2 == e
            },
        },
        on_android ==> (r matches Ok(models) && models@[0].engine == AsrEngine::SenseVoice
            && models@[1].engine == AsrEngine::ZipformerCtc),
{
    let mut models: Vec<AsrModelPreset> = Vec::new();
    if on_android {
        models.push(sense_voice_preset());
        models.push(zipformer_ctc_preset());
    }
    let base = models.len();
    match whisper {
        Ok(w) => {
            let mut i: usize = 0;
            while i < w.len()
                invariant
                    i <= w.len(),
                    base == whisper_offset(on_android),
                    models@.len() == base + i,
                    on_android ==> models@[0].engine == AsrEngine::SenseVoice
                        && models@[1].engine == AsrEngine::ZipformerCtc,
                    forall|j: int|
                        base <= j < base + i ==> (#[trigger] models@[j]).id@ == w@[j - base].id@
                            && models@[j].engine == AsrEngine::Whisper,
                decreases w.len() - i,
            {
                let entry = &w[i];
                let copy = AsrWhisperModelPreset {
                    id: entry.id.clone(),
                    filename: entry.filename.clone(),
                    label: entry.label.clone(),
                    repo: entry.repo.clone(),
                    download_url: entry.download_url.clone(),
                    size_bytes: entry.size_bytes,
                    english_only: entry.english_only,
                    quantized: entry.quantized,
                    recommended: entry.recommended,
                    recommended_for_mobile: entry.recommended_for_mobile,
                    recommended_for_desktop: entry.recommended_for_desktop,
                };
                let ghost before = models@;
                let preset = whisper_preset(copy);
                models.push(preset);
                proof {
                    assert forall|j: int| base <= j < base + i + 1 implies (#[trigger] models@[j]).id@
                        == w@[j - base].id@ && models@[j].engine == AsrEngine::Whisper by {
                        if j < base + i {
                            assert(models@[j] == before[j]);
                        }
                    }
                }
                i += 1;
            }
            proof {
                assert forall|k: int| 0 <= k < w@.len() implies models@[base + k].id@ == (
                #[trigger] w@[k]).id@ && models@[base + k].engine == AsrEngine::Whisper by {
                    assert(models@[base + k].id@ == w@[(base + k) - base].id@);
                }
            }
            Ok(models)
        },
        Err(e) => if models.len() > 0 {
            Ok(models)
        } else {
            Err(e)
        },
    }
}

/// An installed on-device model from its files and their sizes (sizes of unreadable files are
/// given as 0; the total saturates).
pub fn on_device_installed(
    engine: AsrEngine,
    model_path: String,
    tokens_path: String,
    punctuation_path: Option<String>,
    sizes: &Vec<u64>,
) -> (r: AsrInstalledModel)
    requires
        engine != AsrEngine::Whisper,
    ensures
        r.engine == engine,
        engine == AsrEngine::SenseVoice ==> r.id@ == SENSE_VOICE_ID@ && r.label@ == SENSE_VOICE_LABEL@
            && r.filename@ == SENSE_VOICE_MODEL_FILE@,
        engine == AsrEngine::ZipformerCtc ==> r.id@ == ZIPFORMER_CTC_ID@ && r.label@
            == ZIPFORMER_CTC_LABEL@ && r.filename@ == ZIPFORMER_CTC_MODEL_FILE@,
        r.path == model_path,
        r.tokens_path == Some(tokens_path),
        r.punctuation_path == punctuation_path,
        r.size_bytes == crate::storage::backup_plan::capped(crate::storage::backup_plan::size_list_sum(sizes@)),
        !r.english_only && r.quantized && !r.supports_gpu && !r.supports_initial_prompt,
{
    let size_bytes = crate::storage::backup_plan::sum_u64s(sizes);
    let sense = engine == AsrEngine::SenseVoice;
    AsrInstalledModel {
        id: if sense { SENSE_VOICE_ID.to_owned() } else { ZIPFORMER_CTC_ID.to_owned() },
        engine,
        filename: if sense { SENSE_VOICE_MODEL_FILE.to_owned() } else { ZIPFORMER_CTC_MODEL_FILE.to_owned() },
        label: if sense { SENSE_VOICE_LABEL.to_owned() } else { ZIPFORMER_CTC_LABEL.to_owned() },
        path: model_path,
        tokens_path: Some(tokens_path),
        punctuation_path,
        size_bytes,
        english_only: false,
        quantized: true,
        supports_gpu: false,
        supports_initial_prompt: false,
    }
}

} // verus!
