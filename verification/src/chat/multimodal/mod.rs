//! How chat images reach a provider: inline Base64, or a provider's Files API (Volcengine Ark),
//! as the provider's `imageUpload` configuration says.
use vstd::prelude::*;

use super::attachments::ModelImageLoadMode;
use super::types::{ImageAttachment, ProviderCredential};
use crate::json::{Json, JsonV};
use crate::text::{chars_of, is_blank, starts_with, starts_with_exec, str_eq, trim, trimmed};

pub mod files_endpoint;
pub mod volcengine_files;

verus! {

pub const DEFAULT_VOLCENGINE_ARK_FILES_ENDPOINT: &'static str = "https://ark.cn-beijing.volces.com/api/v3/files";

/// The Files API endpoint used when none is configured.
pub fn default_volcengine_files_endpoint() -> (r: String)
    ensures
        r@ == DEFAULT_VOLCENGINE_ARK_FILES_ENDPOINT@,
{
    DEFAULT_VOLCENGINE_ARK_FILES_ENDPOINT.to_owned()
}

#[derive(Debug, Clone, Copy, PartialEq, Eq, Structural)]
pub enum ImageUploadMode {
    Base64,
    VolcengineArkFiles,
}

#[derive(Debug, Clone, Copy, PartialEq, Eq, Structural)]
pub enum ApiKeySource {
    Provider,
    Custom,
}

#[derive(Debug)]
pub struct ImageUploadConfig {
    pub mode: ImageUploadMode,
    pub endpoint: String,
    pub api_key_source: ApiKeySource,
    pub api_key: Option<String>,
}

pub struct ImageUploadConfigV {
    pub mode: ImageUploadMode,
    pub endpoint: Seq<char>,
    pub api_key_source: ApiKeySource,
    pub api_key: Option<Seq<char>>,
}

impl View for ImageUploadConfig {
    type V = ImageUploadConfigV;

    open spec fn view(&self) -> ImageUploadConfigV {
        ImageUploadConfigV {
            mode: self.mode,
            endpoint: self.endpoint@,
            api_key_source: self.api_key_source,
            api_key: match self.api_key {
                Some(k) => Some(k@),
                None => None,
            },
        }
    }
}

/// A prepared upload: the provider's file id, and whether it came from the cache.
#[derive(Debug)]
pub struct PreparedImageUpload {
    pub file_id: String,
    pub cache_hit: bool,
}

pub open spec fn default_upload_config() -> ImageUploadConfigV {
    ImageUploadConfigV {
        mode: ImageUploadMode::Base64,
        endpoint: DEFAULT_VOLCENGINE_ARK_FILES_ENDPOINT@,
        api_key_source: ApiKeySource::Provider,
        api_key: None,
    }
}

/// A field of the configuration: absent (or, for the key, null) takes the default; a value
/// of the wrong kind makes the whole configuration unreadable.
pub open spec fn mode_field(v: Option<JsonV>) -> Option<ImageUploadMode> {
    match v {
        None => Some(ImageUploadMode::Base64),
        Some(JsonV::Str(s)) => if s == "base64"@ {
            Some(ImageUploadMode::Base64)
        } else if s == "volcengine-ark-files"@ {
            Some(ImageUploadMode::VolcengineArkFiles)
        } else {
            None
        },
        Some(_) => None,
    }
}

pub open spec fn source_field(v: Option<JsonV>) -> Option<ApiKeySource> {
    match v {
        None => Some(ApiKeySource::Provider),
        Some(JsonV::Str(s)) => if s == "provider"@ {
            Some(ApiKeySource::Provider)
        } else if s == "custom"@ {
            Some(ApiKeySource::Custom)
        } else {
            None
        },
        Some(_) => None,
    }
}

pub open spec fn endpoint_field(v: Option<JsonV>) -> Option<Seq<char>> {
    match v {
        None => Some(DEFAULT_VOLCENGINE_ARK_FILES_ENDPOINT@),
        Some(JsonV::Str(s)) => Some(s),
        Some(_) => None,
    }
}

pub open spec fn key_field(v: Option<JsonV>) -> Option<Option<Seq<char>>> {
    match v {
        None => Some(None),
        Some(JsonV::Null) => Some(None),
        Some(JsonV::Str(s)) => Some(Some(s)),
        Some(_) => None,
    }
}

/// The image upload configuration of a provider: its `imageUpload` object read field by field
/// (`mode`, `endpoint`, `apiKeySource`, `apiKey`, each with its default); the default
/// configuration (Base64) when it is missing or unreadable.
pub open spec fn upload_config_of(config: Option<JsonV>) -> ImageUploadConfigV {
    match config {
        Some(c) => match c.get("imageUpload"@) {
            Some(u) => if u.is_object() {
                match (
                    mode_field(u.get("mode"@)),
                    endpoint_field(u.get("endpoint"@)),
                    source_field(u.get("apiKeySource"@)),
                    key_field(u.get("apiKey"@)),
                ) {
                    (Some(mode), Some(endpoint), Some(source), Some(key)) => ImageUploadConfigV {
                        mode,
                        endpoint,
                        api_key_source: source,
                        api_key: key,
                    },
                    _ => default_upload_config(),
                }
            } else {
                default_upload_config()
            },
            None => default_upload_config(),
        },
        None => default_upload_config(),
    }
}

pub open spec fn credential_config(credential: &ProviderCredential) -> Option<JsonV> {
    match credential.config {
        Some(c) => Some(c@),
        None => None,
    }
}

fn default_config() -> (r: ImageUploadConfig)
    ensures
        r@ == default_upload_config(),
{
    ImageUploadConfig {
        mode: ImageUploadMode::Base64,
        endpoint: DEFAULT_VOLCENGINE_ARK_FILES_ENDPOINT.to_owned(),
        api_key_source: ApiKeySource::Provider,
        api_key: None,
    }
}

pub fn image_upload_config(credential: &ProviderCredential) -> (r: ImageUploadConfig)
    ensures
        r@ == upload_config_of(credential_config(credential)),
{
    let config = match &credential.config {
        Some(c) => c,
        None => return default_config(),
    };
    let upload = match config.get("imageUpload") {
        Some(u) => u,
        None => return default_config(),
    };
    if !upload.is_object() {
        return default_config();
    }
    let mode = match upload.get("mode") {
        None => ImageUploadMode::Base64,
        Some(Json::Str(s)) => if str_eq(s.as_str(), "base64") {
            ImageUploadMode::Base64
        } else if str_eq(s.as_str(), "volcengine-ark-files") {
            ImageUploadMode::VolcengineArkFiles
        } else {
            return default_config();
        },
        Some(other) => {
            proof {
                other.lemma_array_view();
            }
            return default_config();
        },
    };
    let endpoint = match upload.get("endpoint") {
        None => DEFAULT_VOLCENGINE_ARK_FILES_ENDPOINT.to_owned(),
        Some(Json::Str(s)) => s.clone(),
        Some(other) => {
            proof {
                other.lemma_array_view();
            }
            return default_config();
        },
    };
    let api_key_source = match upload.get("apiKeySource") {
        None => ApiKeySource::Provider,
        Some(Json::Str(s)) => if str_eq(s.as_str(), "provider") {
            ApiKeySource::Provider
        } else if str_eq(s.as_str(), "custom") {
            ApiKeySource::Custom
        } else {
            return default_config();
        },
        Some(other) => {
            proof {
                other.lemma_array_view();
            }
            return default_config();
        },
    };
    let api_key = match upload.get("apiKey") {
        None => None,
        Some(Json::Null) => None,
        Some(Json::Str(s)) => Some(s.clone()),
        Some(other) => {
            proof {
                other.lemma_array_view();
            }
            return default_config();
        },
    };
    ImageUploadConfig { mode, endpoint, api_key_source, api_key }
}

pub open spec fn load_mode_of(mode: ImageUploadMode) -> ModelImageLoadMode {
    match mode {
        ImageUploadMode::Base64 => ModelImageLoadMode::CompressedBase64,
        ImageUploadMode::VolcengineArkFiles => ModelImageLoadMode::OriginalForRemoteUpload,
    }
}

/// How to load images for a provider: the originals when it uploads them to a Files API,
/// compressed Base64 otherwise.
pub fn model_image_load_mode(credential: &ProviderCredential) -> (r: ModelImageLoadMode)
    ensures
        r == load_mode_of(upload_config_of(credential_config(credential)).mode),
{
    match image_upload_config(credential).mode {
        ImageUploadMode::Base64 => ModelImageLoadMode::CompressedBase64,
        ImageUploadMode::VolcengineArkFiles => ModelImageLoadMode::OriginalForRemoteUpload,
    }
}

/// The Files API key: the provider's key or the configured one, trimmed; none when blank.
pub open spec fn files_api_key(config: ImageUploadConfigV, provider_api_key: Seq<char>) -> Option<Seq<char>> {
    let value = match config.api_key_source {
        ApiKeySource::Provider => provider_api_key,
        ApiKeySource::Custom => match config.api_key {
            Some(k) => k,
            None => Seq::empty(),
        },
    };
    if trim(value).len() > 0 {
        Some(trim(value))
    } else {
        None
    }
}

pub fn resolve_files_api_key(config: &ImageUploadConfig, provider_api_key: &str) -> (r: Option<String>)
    ensures
        match r {
            Some(k) => files_api_key(config@, provider_api_key@) == Some(k@),
            None => files_api_key(config@, provider_api_key@) is None,
        },
{
    let value = match config.api_key_source {
        ApiKeySource::Provider => trimmed(provider_api_key),
        ApiKeySource::Custom => match &config.api_key {
            Some(k) => trimmed(k.as_str()),
            None => {
                proof {
                    reveal_strlit("");
                }
                assert(trim(Seq::<char>::empty()) =~= Seq::<char>::empty()) by {
                    crate::text::lemma_lead_ws(Seq::<char>::empty());
                    crate::text::lemma_trail_ws(Seq::<char>::empty());
                }
                trimmed("")
            },
        },
    };
    if value.as_str().is_empty() {
        None
    } else {
        Some(value)
    }
}

/// Where and with which key to upload images: none in Base64 mode; an error when the Files API
/// has no key.
pub fn files_upload_target(credential: &ProviderCredential, provider_api_key: &str) -> (r: Result<
    Option<(String, String)>,
    String,
>)
    ensures
        ({
            let config = upload_config_of(credential_config(credential));
            match r {
                Ok(None) => config.mode == ImageUploadMode::Base64,
                Ok(Some((endpoint, key))) => config.mode == ImageUploadMode::VolcengineArkFiles
                    && endpoint@ == config.endpoint && files_api_key(config, provider_api_key@) == Some(
                    key@,
                ),
                Err(_) => config.mode == ImageUploadMode::VolcengineArkFiles && files_api_key(
                    config,
                    provider_api_key@,
                ) is None,
            }
        }),
{
    let config = image_upload_config(credential);
    if config.mode == ImageUploadMode::Base64 {
        return Ok(None);
    }
    match resolve_files_api_key(&config, provider_api_key) {
        Some(key) => Ok(Some((config.endpoint, key))),
        None => Err("Volcengine Files API key is missing".to_owned()),
    }
}

/// An attachment can be uploaded ahead of sending: it has inline data of an image type.
pub fn check_uploadable(attachment: &ImageAttachment) -> (r: Result<(), String>)
    ensures
        r is Ok <==> (attachment.data@.len() > 0 && starts_with(attachment.mime_type@, "image/"@)),
{
    if attachment.data.as_str().is_empty() || !starts_with_exec(
        &chars_of(attachment.mime_type.as_str()),
        &chars_of("image/"),
    ) {
        return Err("A readable image attachment is required".to_owned());
    }
    Ok(())
}

} // verus!
