use keybinder::models::{DetectedVariant, DetectionSource, SkhdVariant, SkhdVariantSetting};
use keybinder::settings::{
    effective_variant, EffectiveVariantResponse, EffectiveVariantResult, SettingsState,
};

#[test]
fn test_effective_variant_response_from_result() {
    let result = EffectiveVariantResult {
        variant: SkhdVariant::Original,
        is_auto_detected: true,
        warning: None,
        detected: Some(DetectedVariant::none()),
    };

    let response: EffectiveVariantResponse = result.into();
    assert_eq!(response.variant, "original");
    assert!(response.is_auto_detected);
    assert!(response.warning.is_none());
}

#[test]
fn test_effective_variant_response_zig() {
    let result = EffectiveVariantResult {
        variant: SkhdVariant::Zig,
        is_auto_detected: false,
        warning: Some("Not installed".to_string()),
        detected: Some(DetectedVariant::none()),
    };

    let response: EffectiveVariantResponse = result.into();
    assert_eq!(response.variant, "zig");
    assert!(!response.is_auto_detected);
    assert_eq!(response.warning, Some("Not installed".to_string()));
}

#[test]
fn setting_words_round_trip() {
    for s in [SkhdVariantSetting::Auto, SkhdVariantSetting::Original, SkhdVariantSetting::Zig] {
        assert_eq!(SkhdVariantSetting::from_setting_str(s.as_setting_str()), Ok(s));
    }
    assert_eq!(SkhdVariantSetting::Auto.as_setting_str(), "auto");
    assert_eq!(SkhdVariantSetting::Original.as_setting_str(), "original");
    assert_eq!(SkhdVariantSetting::Zig.as_setting_str(), "zig");
}

#[test]
fn unknown_setting_word_is_refused() {
    assert_eq!(
        SkhdVariantSetting::from_setting_str("Zig"),
        Err("Invalid variant setting: Zig. Must be 'auto', 'original', or 'zig'".to_string())
    );
}

#[test]
fn settings_state_reads_what_was_written() {
    let mut state = SettingsState::new();
    assert_eq!(state.get_skhd_variant_setting(), SkhdVariantSetting::Auto);
    assert_eq!(state.set_skhd_variant_setting("zig"), Ok(()));
    assert_eq!(state.get_skhd_variant_setting(), SkhdVariantSetting::Zig);
    assert!(state.set_skhd_variant_setting("bogus").is_err());
    assert_eq!(state.get_settings().skhd_variant, SkhdVariantSetting::Zig);
}

fn found(v: SkhdVariant) -> DetectedVariant {
    DetectedVariant::new(Some(v), None, None, DetectionSource::Running)
}

#[test]
fn auto_setting_follows_detection() {
    let r = effective_variant(SkhdVariantSetting::Auto, found(SkhdVariant::Zig));
    assert_eq!(r.variant, SkhdVariant::Zig);
    assert!(r.is_auto_detected);
    assert_eq!(r.warning, None);
    assert_eq!(r.detected, Some(found(SkhdVariant::Zig)));
}

#[test]
fn auto_setting_without_detection_uses_original_with_warning() {
    let r = effective_variant(SkhdVariantSetting::Auto, DetectedVariant::none());
    assert_eq!(r.variant, SkhdVariant::Original);
    assert_eq!(
        r.warning.as_deref(),
        Some("No skhd installation was detected; using the original skhd.")
    );
}

#[test]
fn chosen_variant_is_kept_and_warned_about_when_missing() {
    let r = effective_variant(SkhdVariantSetting::Zig, found(SkhdVariant::Original));
    assert_eq!(r.variant, SkhdVariant::Zig);
    assert!(!r.is_auto_detected);
    assert_eq!(
        r.warning.as_deref(),
        Some("skhd.zig is selected but was not detected as installed.")
    );
    let r = effective_variant(SkhdVariantSetting::Original, found(SkhdVariant::Original));
    assert_eq!(r.warning, None);
}
