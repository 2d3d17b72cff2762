//! The Zipformer CTC engine's request handling (Chinese, with a punctuation model).
use vstd::prelude::*;

use super::engine::{given_path, required_path, AsrModelRef};
use crate::text::trim;

verus! {

/// The files Zipformer CTC reads.
#[derive(Debug)]
pub struct ResolvedModel {
    pub model: String,
    pub tokens: String,
    pub punctuation: String,
}

/// Which required file a model reference lacks.
#[derive(Debug, Clone, Copy, PartialEq, Eq, Structural)]
pub enum MissingModelFile {
    Tokens,
    Punctuation,
}

/// The model, its tokens file and its punctuation model; the tokens file is checked first.
pub fn resolved_model(model: &AsrModelRef) -> (r: Result<ResolvedModel, MissingModelFile>)
    ensures
        match (given_path(model.tokens_path), given_path(model.punctuation_path)) {
            (Some(t), Some(p)) => r matches Ok(m) && m.model@ == model.path@ && m.tokens@ == t
                && m.punctuation@ == p,
            (None, _) => r matches Err(e) && e == MissingModelFile::Tokens,
            (Some(_), None) => r matches Err(e) && e == MissingModelFile::Punctuation,
        },
{
    let tokens = match required_path(&model.tokens_path) {
        Some(t) => t,
        None => return Err(MissingModelFile::Tokens),
    };
    let punctuation = match required_path(&model.punctuation_path) {
        Some(p) => p,
        None => return Err(MissingModelFile::Punctuation),
    };
    Ok(ResolvedModel { model: model.path.clone(), tokens, punctuation })
}

/// The recognised text is punctuated only when the corrected text is not blank; otherwise the
/// final text is empty.
pub fn needs_punctuation(corrected_text: &str) -> (r: bool)
    ensures
        r == (trim(corrected_text@).len() > 0),
{
    !crate::text::is_blank(corrected_text)
}

/// Outside Android every Zipformer CTC request is refused.
pub fn unsupported<T>() -> (r: Result<T, String>)
    ensures
        r matches Err(e) && e@ == "Zipformer CTC is currently available on Android only"@,
{
    Err("Zipformer CTC is currently available on Android only".to_owned())
}

} // verus!
