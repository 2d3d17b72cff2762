//! How message attachments are stored and loaded for a model: which attachments are saved,
//! kept or skipped, and where each attachment's data is read from.
use vstd::prelude::*;

use super::types::ImageAttachment;
use crate::text::{chars_of, starts_with, starts_with_exec};

verus! {

/// How images reach a model: compressed inline Base64, or the original file for a provider's
/// upload API.
#[derive(Debug, Clone, Copy, PartialEq, Eq, Structural)]
pub enum ModelImageLoadMode {
    CompressedBase64,
    OriginalForRemoteUpload,
}

pub open spec fn is_audio(attachment: ImageAttachment) -> bool {
    starts_with(attachment.mime_type@, "audio/"@)
}

pub fn is_audio_attachment(attachment: &ImageAttachment) -> (r: bool)
    ensures
        r == is_audio(*attachment),
{
    starts_with_exec(&chars_of(attachment.mime_type.as_str()), &chars_of("audio/"))
}

/// What persisting an attachment does.
#[derive(Debug, Clone, Copy, PartialEq, Eq, Structural)]
pub enum PersistAction {
    /// Already stored and without inline data: kept as it is.
    Keep,
    /// Nothing to store: dropped.
    Skip,
    /// Its data is saved to the attachment store; `preserve_source` keeps the original image
    /// (for upload APIs) instead of the store's usual re-encoding.
    Save { preserve_source: bool },
}

pub open spec fn persist_action(attachment: ImageAttachment, mode: ModelImageLoadMode) -> PersistAction {
    if attachment.storage_path is Some && attachment.data@.len() == 0 {
        PersistAction::Keep
    } else if attachment.data@.len() == 0 {
        PersistAction::Skip
    } else {
        PersistAction::Save {
            preserve_source: mode == ModelImageLoadMode::OriginalForRemoteUpload && !is_audio(attachment),
        }
    }
}

pub fn persist_action_for(attachment: &ImageAttachment, mode: ModelImageLoadMode) -> (r: PersistAction)
    ensures
        r == persist_action(*attachment, mode),
{
    let empty = attachment.data.as_str().is_empty();
    if attachment.storage_path.is_some() && empty {
        PersistAction::Keep
    } else if empty {
        PersistAction::Skip
    } else {
        PersistAction::Save {
            preserve_source: mode == ModelImageLoadMode::OriginalForRemoteUpload && !is_audio_attachment(attachment),
        }
    }
}

/// A saved attachment: its inline data replaced by the path it was stored at.
pub fn persisted_attachment(attachment: ImageAttachment, storage_path: String) -> (r: ImageAttachment)
    ensures
        r.id == attachment.id,
        r.data@.len() == 0,
        r.mime_type == attachment.mime_type,
        r.filename == attachment.filename,
        r.width == attachment.width,
        r.height == attachment.height,
        r.storage_path == Some(storage_path),
{
    ImageAttachment {
        id: attachment.id,
        data: String::new(),
        mime_type: attachment.mime_type,
        filename: attachment.filename,
        width: attachment.width,
        height: attachment.height,
        storage_path: Some(storage_path),
    }
}

/// Where a message attachment's data comes from when the message is loaded for a model.
#[derive(Debug, Clone, Copy, PartialEq, Eq, Structural)]
pub enum LoadSource {
    /// Used as it is.
    AsIs,
    /// Its inline image is compressed for the model (kept as it is when that fails).
    CompressInline,
    /// Read from the store unchanged (kept as it is when that fails).
    StoredOriginal,
    /// Read from the store and prepared for the model; the original when that fails.
    StoredForModel,
}

/// Inline data is used as it is for audio and for upload APIs, else compressed; stored data is
/// read unchanged for audio and upload APIs, else prepared for the model; an attachment with
/// neither is used as it is.
pub open spec fn load_source(attachment: ImageAttachment, mode: ModelImageLoadMode) -> LoadSource {
    if attachment.data@.len() > 0 {
        if is_audio(attachment) || mode == ModelImageLoadMode::OriginalForRemoteUpload {
            LoadSource::AsIs
        } else {
            LoadSource::CompressInline
        }
    } else if attachment.storage_path is None {
        LoadSource::AsIs
    } else if is_audio(attachment) || mode == ModelImageLoadMode::OriginalForRemoteUpload {
        LoadSource::StoredOriginal
    } else {
        LoadSource::StoredForModel
    }
}

pub fn load_source_for(attachment: &ImageAttachment, mode: ModelImageLoadMode) -> (r: LoadSource)
    ensures
        r == load_source(*attachment, mode),
{
    let audio = is_audio_attachment(attachment);
    if !attachment.data.as_str().is_empty() {
        if audio || mode == ModelImageLoadMode::OriginalForRemoteUpload {
            LoadSource::AsIs
        } else {
            LoadSource::CompressInline
        }
    } else if attachment.storage_path.is_none() {
        LoadSource::AsIs
    } else if audio || mode == ModelImageLoadMode::OriginalForRemoteUpload {
        LoadSource::StoredOriginal
    } else {
        LoadSource::StoredForModel
    }
}

/// A loaded attachment: the data and type it was loaded with, everything else kept.
pub fn with_loaded_data(attachment: &ImageAttachment, data: String, mime_type: String) -> (r: ImageAttachment)
    ensures
        r.id@ == attachment.id@,
        r.data == data,
        r.mime_type == mime_type,
        crate::storage::jsonl_media::opt_string_view(r.filename) == crate::storage::jsonl_media::opt_string_view(
            attachment.filename,
        ),
        r.width == attachment.width,
        r.height == attachment.height,
        crate::storage::jsonl_media::opt_string_view(r.storage_path) == crate::storage::jsonl_media::opt_string_view(
            attachment.storage_path,
        ),
{
    ImageAttachment {
        id: attachment.id.clone(),
        data,
        mime_type,
        filename: match &attachment.filename {
            Some(f) => Some(f.clone()),
            None => None,
        },
        width: attachment.width,
        height: attachment.height,
        storage_path: match &attachment.storage_path {
            Some(p) => Some(p.clone()),
            None => None,
        },
    }
}

/// The load to fall back on when the one for a source fails: the stored original for a stored
/// image prepared for the model, none for the others.
pub open spec fn fallback_source(source: LoadSource) -> Option<LoadSource> {
    match source {
        LoadSource::StoredForModel => Some(LoadSource::StoredOriginal),
        _ => None,
    }
}

pub fn fallback_for(source: LoadSource) -> (r: Option<LoadSource>)
    ensures
        r == fallback_source(source),
{
    match source {
        LoadSource::StoredForModel => Some(LoadSource::StoredOriginal),
        _ => None,
    }
}

/// An attachment after its loads: the data and type loaded, or, when nothing could be loaded,
/// the data and type it had; everything else kept.
pub fn attachment_after_load(attachment: &ImageAttachment, loaded: Option<(String, String)>) -> (r: ImageAttachment)
    ensures
        match loaded {
            Some((data, mime_type)) => r.data == data && r.mime_type == mime_type,
            None => r.data@ == attachment.data@ && r.mime_type@ == attachment.mime_type@,
        },
        r.id@ == attachment.id@,
        crate::storage::jsonl_media::opt_string_view(r.filename) == crate::storage::jsonl_media::opt_string_view(
            attachment.filename,
        ),
        r.width == attachment.width,
        r.height == attachment.height,
        crate::storage::jsonl_media::opt_string_view(r.storage_path) == crate::storage::jsonl_media::opt_string_view(
            attachment.storage_path,
        ),
{
    match loaded {
        Some((data, mime_type)) => with_loaded_data(attachment, data, mime_type),
        None => with_loaded_data(attachment, attachment.data.clone(), attachment.mime_type.clone()),
    }
}

} // verus!
