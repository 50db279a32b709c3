//! The variant preference: its words, its store, and the variant it selects.
use vstd::prelude::*;

use crate::models::{
    spec_display_name, spec_setting_str, spec_to_variant, DetectedModel, DetectedVariant,
    Settings, SkhdVariant, SkhdVariantSetting,
};
use crate::text::owned;

verus! {

/// The setting a word names, if it names one.
pub open spec fn spec_parse_setting(w: Seq<char>) -> Option<SkhdVariantSetting> {
    if w == "auto"@ {
        Some(SkhdVariantSetting::Auto)
    } else if w == "original"@ {
        Some(SkhdVariantSetting::Original)
    } else if w == "zig"@ {
        Some(SkhdVariantSetting::Zig)
    } else {
        None
    }
}

pub open spec fn invalid_setting_message(w: Seq<char>) -> Seq<char> {
    "Invalid variant setting: "@ + w + ". Must be 'auto', 'original', or 'zig'"@
}

impl SkhdVariantSetting {
    /// The setting named by `auto`, `original` or `zig`; any other word is refused.
    pub fn from_setting_str(value: &str) -> (r: Result<SkhdVariantSetting, String>)
        ensures
            r matches Ok(s) ==> spec_parse_setting(value@) == Some(s),
            r matches Err(m) ==> spec_parse_setting(value@) is None && m@
                == invalid_setting_message(value@),
    {
        let v = owned(value);
        if v == owned("auto") {
            Ok(SkhdVariantSetting::Auto)
        } else if v == owned("original") {
            Ok(SkhdVariantSetting::Original)
        } else if v == owned("zig") {
            Ok(SkhdVariantSetting::Zig)
        } else {
            let m = owned("Invalid variant setting: ");
            let m = m.concat(value);
            let m = m.concat(". Must be 'auto', 'original', or 'zig'");
            Err(m)
        }
    }
}

/// Every setting is named by its own word, and no two settings share a word.
pub proof fn law_setting_words_round_trip(s: SkhdVariantSetting)
    ensures
        spec_parse_setting(spec_setting_str(s)) == Some(s),
{
    reveal_strlit("auto");
    reveal_strlit("original");
    reveal_strlit("zig");
    assert("auto"@.len() != "original"@.len());
    assert("auto"@.len() != "zig"@.len());
    assert("original"@.len() != "zig"@.len());
}

/// The in-memory store of the settings.
pub struct SettingsState {
    settings: Settings,
}

impl View for SettingsState {
    type V = Settings;

    closed spec fn view(&self) -> Settings {
        self.settings
    }
}

impl SettingsState {
    /// A store holding the default settings.
    pub fn new() -> (r: SettingsState)
        ensures
            r@.skhd_variant == SkhdVariantSetting::Auto,
    {
        SettingsState { settings: Settings::new() }
    }

    /// The stored variant preference.
    pub fn get_skhd_variant_setting(&self) -> (r: SkhdVariantSetting)
        ensures
            r == self@.skhd_variant,
    {
        self.settings.skhd_variant
    }

    /// Stores the preference named by `value`; an unknown word is refused and
    /// leaves the store as it was.
    pub fn set_skhd_variant_setting(&mut self, value: &str) -> (r: Result<(), String>)
        ensures
            r is Ok <==> spec_parse_setting(value@) is Some,
            r is Ok ==> Some(final(self)@.skhd_variant) == spec_parse_setting(value@),
            r matches Err(m) ==> final(self)@ == old(self)@ && m@ == invalid_setting_message(
                value@,
            ),
    {
        match SkhdVariantSetting::from_setting_str(value) {
            Ok(s) => {
                self.settings = Settings { skhd_variant: s };
                Ok(())
            },
            Err(m) => Err(m),
        }
    }

    /// A copy of all stored settings.
    pub fn get_settings(&self) -> (r: Settings)
        ensures
            r == self@,
    {
        self.settings
    }
}

/// The variant to act on, and how it was chosen.
#[derive(Debug, Clone)]
pub struct EffectiveVariantResult {
    pub variant: SkhdVariant,
    /// Whether the variant came from detection rather than from the setting.
    pub is_auto_detected: bool,
    /// A note for the user, when detection contradicts or cannot support the choice.
    pub warning: Option<String>,
    /// What detection found.
    pub detected: Option<DetectedVariant>,
}

pub open spec fn auto_warning() -> Seq<char> {
    "No skhd installation was detected; using the original skhd."@
}

pub open spec fn missing_warning(v: SkhdVariant) -> Seq<char> {
    spec_display_name(v) + " is selected but was not detected as installed."@
}

/// The variant selected by a setting, given what detection found.
pub open spec fn spec_effective_variant(setting: SkhdVariantSetting, found: Option<SkhdVariant>) -> SkhdVariant {
    match spec_to_variant(setting) {
        Some(v) => v,
        None => match found {
            Some(v) => v,
            None => SkhdVariant::Original,
        },
    }
}

/// The warning that goes with that selection.
pub open spec fn spec_effective_warning(setting: SkhdVariantSetting, found: Option<SkhdVariant>) -> Option<Seq<char>> {
    match spec_to_variant(setting) {
        Some(v) => if found == Some(v) {
            None
        } else {
            Some(missing_warning(v))
        },
        None => if found is Some {
            None
        } else {
            Some(auto_warning())
        },
    }
}

/// Combines the setting with what detection found: `auto` takes the detected
/// variant (the original skhd when nothing is found); a chosen variant is kept,
/// with a warning when detection did not find it.
pub fn effective_variant(setting: SkhdVariantSetting, detected: DetectedVariant) -> (r:
    EffectiveVariantResult)
    ensures
        r.variant == spec_effective_variant(setting, detected.variant),
        r.is_auto_detected == (setting == SkhdVariantSetting::Auto),
        r.warning.deep_view() == spec_effective_warning(setting, detected.variant),
        r.detected == Some(detected),
        setting == SkhdVariantSetting::Auto && detected.variant is Some ==> Some(r.variant)
            == detected.variant,
        r.warning is None <==> detected.variant == Some(r.variant),
{
    match setting.to_variant() {
        Some(v) => {
            let warning = if detected.variant == Some(v) {
                None
            } else {
                let m = owned(v.display_name());
                Some(m.concat(" is selected but was not detected as installed."))
            };
            EffectiveVariantResult { variant: v, is_auto_detected: false, warning, detected: Some(detected) }
        },
        None => {
            let (variant, warning) = match detected.variant {
                Some(v) => (v, None),
                None => (
                    SkhdVariant::Original,
                    Some(owned("No skhd installation was detected; using the original skhd.")),
                ),
            };
            EffectiveVariantResult { variant, is_auto_detected: true, warning, detected: Some(detected) }
        },
    }
}

/// The effective variant as the interface receives it.
#[derive(Debug, Clone)]
pub struct EffectiveVariantResponse {
    /// `original` or `zig`.
    pub variant: String,
    pub is_auto_detected: bool,
    pub warning: Option<String>,
    pub detected: Option<DetectedVariant>,
}

pub open spec fn spec_variant_word(v: SkhdVariant) -> Seq<char> {
    match v {
        SkhdVariant::Original => "original"@,
        SkhdVariant::Zig => "zig"@,
    }
}

impl From<EffectiveVariantResult> for EffectiveVariantResponse {
    /// Names the variant by its word and keeps the other fields.
    fn from(result: EffectiveVariantResult) -> (r: Self)
        ensures
            r.variant@ == spec_variant_word(result.variant),
            r.is_auto_detected == result.is_auto_detected,
            r.warning == result.warning,
            r.detected == result.detected,
    {
        let variant = match result.variant {
            SkhdVariant::Original => owned("original"),
            SkhdVariant::Zig => owned("zig"),
        };
        EffectiveVariantResponse {
            variant,
            is_auto_detected: result.is_auto_detected,
            warning: result.warning,
            detected: result.detected,
        }
    }
}

impl vstd::std_specs::convert::FromSpecImpl<EffectiveVariantResult> for EffectiveVariantResponse {
    /// The conversion makes a new string, so no value can be named in advance:
    /// what `from` gives is stated by its own contract.
    open spec fn obeys_from_spec() -> bool {
        false
    }

    open spec fn from_spec(v: EffectiveVariantResult) -> Self {
        arbitrary()
    }
}

/// The effective variant follows the setting: a chosen variant is used as it
/// is, and `auto` uses the variant detection found, or the original skhd when
/// nothing was found. A warning is given exactly when detection did not find
/// the variant that is used.
pub proof fn law_effective_variant_follows_setting(
    setting: SkhdVariantSetting,
    found: Option<SkhdVariant>,
)
    ensures
        setting == SkhdVariantSetting::Original ==> spec_effective_variant(setting, found)
            == SkhdVariant::Original,
        setting == SkhdVariantSetting::Zig ==> spec_effective_variant(setting, found)
            == SkhdVariant::Zig,
        setting == SkhdVariantSetting::Auto && found is Some ==> Some(
            spec_effective_variant(setting, found),
        ) == found,
        setting == SkhdVariantSetting::Auto && found is None ==> spec_effective_variant(
            setting,
            found,
        ) == SkhdVariant::Original,
        spec_effective_warning(setting, found) is None <==> found == Some(
            spec_effective_variant(setting, found),
        ),
{
}

} // verus!
