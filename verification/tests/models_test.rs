use keybinder::models::{DetectedVariant, DetectionSource, Settings, SkhdVariant, SkhdVariantSetting};

#[test]
fn test_skhd_variant_setting_default() {
    let default = SkhdVariantSetting::default();
    assert!(matches!(default, SkhdVariantSetting::Auto));
}

#[test]
fn test_skhd_variant_setting_is_auto() {
    assert!(SkhdVariantSetting::Auto.is_auto());
    assert!(!SkhdVariantSetting::Original.is_auto());
    assert!(!SkhdVariantSetting::Zig.is_auto());
}

#[test]
fn test_skhd_variant_setting_to_variant() {
    assert_eq!(SkhdVariantSetting::Auto.to_variant(), None);
    assert_eq!(
        SkhdVariantSetting::Original.to_variant(),
        Some(SkhdVariant::Original)
    );
    assert_eq!(SkhdVariantSetting::Zig.to_variant(), Some(SkhdVariant::Zig));
}

#[test]
fn test_settings_default() {
    let settings = Settings::default();
    assert!(matches!(settings.skhd_variant, SkhdVariantSetting::Auto));
}

#[test]
fn test_settings_new() {
    let settings = Settings::new();
    assert!(matches!(settings.skhd_variant, SkhdVariantSetting::Auto));
}

#[test]
fn test_detected_variant_new() {
    let variant = DetectedVariant::new(
        Some(SkhdVariant::Zig),
        Some("/usr/local/bin/skhd".to_string()),
        Some("com.jackielii.skhd".to_string()),
        DetectionSource::Homebrew,
    );

    assert_eq!(variant.variant, Some(SkhdVariant::Zig));
    assert_eq!(variant.binary_path, Some("/usr/local/bin/skhd".to_string()));
    assert_eq!(variant.plist_label, Some("com.jackielii.skhd".to_string()));
    assert_eq!(variant.source, DetectionSource::Homebrew);
}

#[test]
fn variant_detector_test_detected_variant_none() {
    let variant = DetectedVariant::none();

    assert_eq!(variant.variant, None);
    assert_eq!(variant.binary_path, None);
    assert_eq!(variant.plist_label, None);
    assert_eq!(variant.source, DetectionSource::Undetected);
    assert!(!variant.is_detected());
}

#[test]
fn test_detected_variant_is_detected() {
    let detected = DetectedVariant::new(
        Some(SkhdVariant::Original),
        None,
        None,
        DetectionSource::Path,
    );
    assert!(detected.is_detected());

    let not_detected = DetectedVariant::none();
    assert!(!not_detected.is_detected());
}

#[test]
fn test_detected_variant_description() {
    let original = DetectedVariant::new(
        Some(SkhdVariant::Original),
        None,
        None,
        DetectionSource::Running,
    );
    assert_eq!(original.description(), "skhd (original)");

    let zig = DetectedVariant::new(
        Some(SkhdVariant::Zig),
        None,
        None,
        DetectionSource::AppBundle,
    );
    assert_eq!(zig.description(), "skhd.zig");

    let none = DetectedVariant::none();
    assert_eq!(none.description(), "Not detected");
}

#[test]
fn variant_names_and_labels() {
    assert_eq!(SkhdVariant::Original.display_name(), "skhd");
    assert_eq!(SkhdVariant::Zig.display_name(), "skhd.zig");
    assert_eq!(SkhdVariant::Original.plist_label(), "com.koekeishiya.skhd");
    assert_eq!(SkhdVariant::Zig.plist_label(), "com.jackielii.skhd");
}
