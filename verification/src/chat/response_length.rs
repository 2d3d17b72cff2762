//! Response-length rules injected into the system prompt.
use vstd::prelude::*;

use super::types::{AdvancedModelSettings, Model, Session, Settings};
use crate::text::{decimal, decimal_string, push_str, str_eq};

verus! {

pub const PLACEHOLDER: &'static str = "{{response_length_rules}}";

pub const SHORT_CHARS: u32 = 80;

pub const MEDIUM_CHARS: u32 = 150;

pub const LONG_CHARS: u32 = 300;

pub const DEFAULT_CUSTOM_CHARS: u32 = 80;

pub const MIN_CUSTOM_CHARS: u32 = 20;

pub const MAX_CUSTOM_CHARS: u32 = 2000;

/// `value.clamp(lo, hi)`.
pub open spec fn clamp_u32(value: u32, lo: u32, hi: u32) -> u32 {
    if value < lo {
        lo
    } else if value > hi {
        hi
    } else {
        value
    }
}

/// The character limit a preset stands for.
pub open spec fn preset_limit(preset: Seq<char>, chars: Option<u32>) -> Option<u32> {
    if preset == "short"@ {
        Some(SHORT_CHARS)
    } else if preset == "medium"@ {
        Some(MEDIUM_CHARS)
    } else if preset == "long"@ {
        Some(LONG_CHARS)
    } else if preset == "custom"@ {
        Some(
            clamp_u32(
                match chars {
                    Some(c) => c,
                    None => DEFAULT_CUSTOM_CHARS,
                },
                MIN_CUSTOM_CHARS,
                MAX_CUSTOM_CHARS,
            ),
        )
    } else {
        None
    }
}

/// The limit one settings layer gives (`auto` and unknown presets give none).
pub open spec fn settings_limit(settings: AdvancedModelSettings) -> Option<u32> {
    match settings.response_length_preset {
        Some(p) => preset_limit(p@, settings.response_length_chars),
        None => None,
    }
}

/// The first layer that sets a preset decides; layers without a preset are skipped.
pub open spec fn layers_limit(layers: Seq<Option<AdvancedModelSettings>>) -> Option<u32>
    decreases layers.len(),
{
    if layers.len() == 0 {
        None
    } else {
        match layers[0] {
            Some(s) if s.response_length_preset is Some => settings_limit(s),
            _ => layers_limit(layers.drop_first()),
        }
    }
}

/// The rules text for a limit.
pub open spec fn rules_text(limit: Option<u32>) -> Seq<char> {
    match limit {
        Some(n) => "请将本轮回复控制在 "@ + decimal(n as nat) + " 个汉字以内。"@,
        None => Seq::empty(),
    }
}

pub fn limit_for_settings(settings: &AdvancedModelSettings) -> (r: Option<u32>)
    ensures
        r == settings_limit(*settings),
{
    let preset = match &settings.response_length_preset {
        Some(p) => p,
        None => return None,
    };
    let p = preset.as_str();
    if str_eq(p, "short") {
        Some(SHORT_CHARS)
    } else if str_eq(p, "medium") {
        Some(MEDIUM_CHARS)
    } else if str_eq(p, "long") {
        Some(LONG_CHARS)
    } else if str_eq(p, "custom") {
        let c = match settings.response_length_chars {
            Some(c) => c,
            None => DEFAULT_CUSTOM_CHARS,
        };
        Some(
            if c < MIN_CUSTOM_CHARS {
                MIN_CUSTOM_CHARS
            } else if c > MAX_CUSTOM_CHARS {
                MAX_CUSTOM_CHARS
            } else {
                c
            },
        )
    } else {
        None
    }
}

/// Spec view of borrowed layers.
pub open spec fn layer_values(layers: Seq<Option<&AdvancedModelSettings>>) -> Seq<
    Option<AdvancedModelSettings>,
> {
    layers.map_values(
        |l: Option<&AdvancedModelSettings>|
            match l {
                Some(s) => Some(*s),
                None => None,
            },
    )
}

pub fn resolve_from_layers(layers: &[Option<&AdvancedModelSettings>]) -> (r: Option<u32>)
    ensures
        r == layers_limit(layer_values(layers@)),
{
    let ghost all = layer_values(layers@);
    assert(all.skip(0) =~= all);
    let mut i: usize = 0;
    while i < layers.len()
        invariant
            i <= layers.len(),
            all == layer_values(layers@),
            layers_limit(all) == layers_limit(all.skip(i as int)),
        decreases layers.len() - i,
    {
        proof {
            assert(all.skip(i as int).drop_first() =~= all.skip(i + 1));
        }
        if let Some(settings) = layers[i] {
            if settings.response_length_preset.is_some() {
                return limit_for_settings(settings);
            }
        }
        i += 1;
    }
    None
}

pub fn resolve_limit(session: &Session, model: &Model, settings: &Settings) -> (r: Option<u32>)
    ensures
        r == layers_limit(
            seq![
                session.advanced_model_settings,
                model.advanced_model_settings,
                Some(settings.advanced_model_settings),
            ],
        ),
{
    let layers = [
        session.advanced_model_settings.as_ref(),
        model.advanced_model_settings.as_ref(),
        Some(&settings.advanced_model_settings),
    ];
    let r = resolve_from_layers(&layers);
    proof {
        assert(layer_values(layers@) =~= seq![
            session.advanced_model_settings,
            model.advanced_model_settings,
            Some(settings.advanced_model_settings),
        ]);
    }
    r
}

pub fn render_rules(session: &Session, model: &Model, settings: &Settings) -> (r: String)
    ensures
        r@ == rules_text(
            layers_limit(
                seq![
                    session.advanced_model_settings,
                    model.advanced_model_settings,
                    Some(settings.advanced_model_settings),
                ],
            ),
        ),
{
    match resolve_limit(session, model, settings) {
        Some(limit) => {
            let mut r = String::new();
            push_str(&mut r, "请将本轮回复控制在 ");
            let digits = decimal_string(limit as u64);
            push_str(&mut r, digits.as_str());
            push_str(&mut r, " 个汉字以内。");
            r
        },
        None => String::new(),
    }
}

/// A custom length is always kept within the allowed range.
pub proof fn law_custom_limit_in_range(chars: Option<u32>)
    ensures
        preset_limit("custom"@, chars) matches Some(n) && MIN_CUSTOM_CHARS <= n <= MAX_CUSTOM_CHARS,
{
}

/// A layer that sets a preset decides the limit, whatever the later layers say.
pub proof fn law_first_explicit_layer_decides(
    first: AdvancedModelSettings,
    rest: Seq<Option<AdvancedModelSettings>>,
)
    requires
        first.response_length_preset is Some,
    ensures
        layers_limit(seq![Some(first)] + rest) == settings_limit(first),
{
    assert((seq![Some(first)] + rest)[0] == Some(first));
}

/// A layer without a preset is skipped: the next layers decide.
pub proof fn law_missing_preset_inherits(
    first: Option<AdvancedModelSettings>,
    rest: Seq<Option<AdvancedModelSettings>>,
)
    requires
        first matches Some(s) ==> s.response_length_preset is None,
    ensures
        layers_limit(seq![first] + rest) == layers_limit(rest),
{
    assert((seq![first] + rest).drop_first() =~= rest);
}

} // verus!
