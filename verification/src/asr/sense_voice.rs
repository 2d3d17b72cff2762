//! The SenseVoice engine's request handling.
use vstd::prelude::*;

use super::engine::{given_path, required_path, AsrModelRef};
use crate::text::{lower_seq, starts_with, trim};

verus! {

/// The language passed to SenseVoice: `auto`, or zh, yue, en, ja or ko when the requested
/// language starts with one of them (any case); `auto` for anything else.
pub open spec fn sense_voice_language(language: Option<Seq<char>>) -> Seq<char> {
    match language {
        None => "auto"@,
        Some(l) => {
            let t = lower_seq(trim(l));
            if t.len() == 0 || t == "auto"@ {
                "auto"@
            } else if starts_with(t, "zh"@) {
                "zh"@
            } else if starts_with(t, "yue"@) {
                "yue"@
            } else if starts_with(t, "en"@) {
                "en"@
            } else if starts_with(t, "ja"@) {
                "ja"@
            } else if starts_with(t, "ko"@) {
                "ko"@
            } else {
                "auto"@
            }
        },
    }
}

pub fn normalized_language(language: Option<&str>) -> (r: String)
    ensures
        r@ == sense_voice_language(match language { Some(l) => Some(l@), None => None }),
{
    match language {
        None => "auto".to_owned(),
        Some(l) => {
            let t = crate::text::to_ascii_lowercase(crate::text::trimmed(l).as_str());
            let v = crate::text::chars_of(t.as_str());
            let s = t.as_str();
            if v.len() == 0 || crate::text::str_eq(s, "auto") {
                "auto".to_owned()
            } else if crate::text::starts_with_exec(&v, &crate::text::chars_of("zh")) {
                "zh".to_owned()
            } else if crate::text::starts_with_exec(&v, &crate::text::chars_of("yue")) {
                "yue".to_owned()
            } else if crate::text::starts_with_exec(&v, &crate::text::chars_of("en")) {
                "en".to_owned()
            } else if crate::text::starts_with_exec(&v, &crate::text::chars_of("ja")) {
                "ja".to_owned()
            } else if crate::text::starts_with_exec(&v, &crate::text::chars_of("ko")) {
                "ko".to_owned()
            } else {
                "auto".to_owned()
            }
        },
    }
}

/// The files SenseVoice reads: the model and its tokens file, which must be given.
pub fn resolved_model(model: &AsrModelRef) -> (r: Result<(String, String), String>)
    ensures
        match given_path(model.tokens_path) {
            Some(tokens) => r matches Ok((m, t)) && m@ == model.path@ && t@ == tokens,
            None => r matches Err(e) && e@ == "SenseVoice requires a tokens file"@,
        },
{
    match required_path(&model.tokens_path) {
        Some(tokens) => Ok((model.path.clone(), tokens)),
        None => Err("SenseVoice requires a tokens file".to_owned()),
    }
}

/// Outside Android every SenseVoice request is refused.
pub fn unsupported<T>() -> (r: Result<T, String>)
    ensures
        r matches Err(e) && e@ == "SenseVoice is currently available on Android only"@,
{
    Err("SenseVoice is currently available on Android only".to_owned())
}

} // verus!
