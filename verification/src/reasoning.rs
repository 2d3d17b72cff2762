//! Reasoning (thinking) modes configured per model or session.
use vstd::prelude::*;

use crate::text::str_eq;

verus! {

#[derive(Debug, Clone, Copy, PartialEq, Eq, Structural)]
pub enum ReasoningMode {
    ProviderDefault,
    Auto,
    Enabled,
    Disabled,
}

/// The settings value that names each mode.
pub open spec fn mode_name(mode: ReasoningMode) -> Seq<char> {
    match mode {
        ReasoningMode::ProviderDefault => "provider-default"@,
        ReasoningMode::Auto => "auto"@,
        ReasoningMode::Enabled => "enabled"@,
        ReasoningMode::Disabled => "disabled"@,
    }
}

/// The mode a settings value names, if any.
pub open spec fn parse_mode(value: Seq<char>) -> Option<ReasoningMode> {
    if value == "provider-default"@ {
        Some(ReasoningMode::ProviderDefault)
    } else if value == "auto"@ {
        Some(ReasoningMode::Auto)
    } else if value == "enabled"@ {
        Some(ReasoningMode::Enabled)
    } else if value == "disabled"@ {
        Some(ReasoningMode::Disabled)
    } else {
        None
    }
}

/// The mode a legacy on/off flag stands for.
pub open spec fn legacy_mode(enabled: bool) -> ReasoningMode {
    if enabled {
        ReasoningMode::Enabled
    } else {
        ReasoningMode::Disabled
    }
}

/// An explicit, recognised mode wins; otherwise the legacy flag decides; otherwise nothing.
pub open spec fn settings_mode(mode: Option<Seq<char>>, legacy_enabled: Option<bool>) -> Option<
    ReasoningMode,
> {
    match mode {
        Some(m) if parse_mode(m) is Some => parse_mode(m),
        _ => match legacy_enabled {
            Some(b) => Some(legacy_mode(b)),
            None => None,
        },
    }
}

impl ReasoningMode {
    pub fn parse(value: &str) -> (r: Option<Self>)
        ensures
            r == parse_mode(value@),
    {
        if str_eq(value, "provider-default") {
            Some(ReasoningMode::ProviderDefault)
        } else if str_eq(value, "auto") {
            Some(ReasoningMode::Auto)
        } else if str_eq(value, "enabled") {
            Some(ReasoningMode::Enabled)
        } else if str_eq(value, "disabled") {
            Some(ReasoningMode::Disabled)
        } else {
            None
        }
    }

    pub fn from_settings(mode: Option<&str>, legacy_enabled: Option<bool>) -> (r: Option<Self>)
        ensures
            r == settings_mode(
                match mode {
                    Some(m) => Some(m@),
                    None => None,
                },
                legacy_enabled,
            ),
    {
        let parsed = match mode {
            Some(m) => Self::parse(m),
            None => None,
        };
        match parsed {
            Some(p) => Some(p),
            None => match legacy_enabled {
                Some(b) => Some(Self::from(b)),
                None => None,
            },
        }
    }

    pub fn enables_legacy_adapter(self) -> (r: bool)
        ensures
            r == (self == ReasoningMode::Auto || self == ReasoningMode::Enabled),
    {
        match self {
            ReasoningMode::Auto | ReasoningMode::Enabled => true,
            _ => false,
        }
    }

    pub fn as_str(self) -> (r: &'static str)
        ensures
            r@ == mode_name(self),
    {
        match self {
            ReasoningMode::ProviderDefault => "provider-default",
            ReasoningMode::Auto => "auto",
            ReasoningMode::Enabled => "enabled",
            ReasoningMode::Disabled => "disabled",
        }
    }
}

impl From<bool> for ReasoningMode {
    fn from(enabled: bool) -> (r: Self) {
        if enabled {
            ReasoningMode::Enabled
        } else {
            ReasoningMode::Disabled
        }
    }
}

impl vstd::std_specs::convert::FromSpecImpl<bool> for ReasoningMode {
    open spec fn obeys_from_spec() -> bool {
        true
    }

    open spec fn from_spec(enabled: bool) -> Self {
        legacy_mode(enabled)
    }
}

/// Naming a mode and reading the name back gives the same mode.
pub proof fn law_mode_name_round_trip(mode: ReasoningMode)
    ensures
        parse_mode(mode_name(mode)) == Some(mode),
{
    broadcast use vstd::string::group_string_axioms;

    reveal_strlit("provider-default");
    reveal_strlit("auto");
    reveal_strlit("enabled");
    reveal_strlit("disabled");
    assert("auto"@.len() != "provider-default"@.len());
    assert("enabled"@.len() != "provider-default"@.len());
    assert("enabled"@.len() != "auto"@.len());
    assert("disabled"@.len() != "provider-default"@.len());
    assert("disabled"@.len() != "auto"@.len());
    assert("disabled"@.len() != "enabled"@.len());
}

/// A recognised explicit mode always takes precedence over the legacy flag.
pub proof fn law_explicit_mode_wins(value: Seq<char>, legacy_enabled: Option<bool>)
    requires
        parse_mode(value) is Some,
    ensures
        settings_mode(Some(value), legacy_enabled) == parse_mode(value),
{
}

/// Without a recognised explicit mode, the legacy flag alone decides.
pub proof fn law_legacy_flag_fallback(mode: Option<Seq<char>>, enabled: bool)
    requires
        mode matches Some(m) ==> parse_mode(m) is None,
    ensures
        settings_mode(mode, Some(enabled)) == Some(legacy_mode(enabled)),
{
}

} // verus!
