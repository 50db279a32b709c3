use keybinder::models::{DetectedVariant, DetectionSource, SkhdVariant};

#[test]
fn test_detected_variant_original() {
    let variant = DetectedVariant::new(
        Some(SkhdVariant::Original),
        Some("/usr/local/bin/skhd".to_string()),
        Some("com.koekeishiya.skhd".to_string()),
        DetectionSource::Homebrew,
    );

    assert!(variant.is_detected());
    assert_eq!(variant.variant, Some(SkhdVariant::Original));
    assert_eq!(variant.binary_path, Some("/usr/local/bin/skhd".to_string()));
    assert_eq!(
        variant.plist_label,
        Some("com.koekeishiya.skhd".to_string())
    );
    assert_eq!(variant.source, DetectionSource::Homebrew);
}

#[test]
fn test_detected_variant_zig() {
    let variant = DetectedVariant::new(
        Some(SkhdVariant::Zig),
        Some("/opt/homebrew/bin/skhd".to_string()),
        Some("com.jackielii.skhd".to_string()),
        DetectionSource::Path,
    );

    assert!(variant.is_detected());
    assert_eq!(variant.variant, Some(SkhdVariant::Zig));
    assert_eq!(
        variant.binary_path,
        Some("/opt/homebrew/bin/skhd".to_string())
    );
    assert_eq!(variant.plist_label, Some("com.jackielii.skhd".to_string()));
    assert_eq!(variant.source, DetectionSource::Path);
}

#[test]
fn test_detected_variant_app_bundle() {
    let variant = DetectedVariant::new(
        Some(SkhdVariant::Zig),
        Some("/Applications/skhd.app/Contents/MacOS/skhd".to_string()),
        Some("com.jackielii.skhd".to_string()),
        DetectionSource::AppBundle,
    );

    assert!(variant.is_detected());
    assert_eq!(variant.variant, Some(SkhdVariant::Zig));
    assert_eq!(
        variant.binary_path,
        Some("/Applications/skhd.app/Contents/MacOS/skhd".to_string())
    );
    assert_eq!(variant.plist_label, Some("com.jackielii.skhd".to_string()));
    assert_eq!(variant.source, DetectionSource::AppBundle);
}

#[test]
fn test_detected_variant_from_running() {
    let variant = DetectedVariant::new(
        Some(SkhdVariant::Original),
        None,
        Some("com.koekeishiya.skhd".to_string()),
        DetectionSource::Running,
    );

    assert!(variant.is_detected());
    assert_eq!(variant.variant, Some(SkhdVariant::Original));
    assert_eq!(variant.binary_path, None);
    assert_eq!(
        variant.plist_label,
        Some("com.koekeishiya.skhd".to_string())
    );
    assert_eq!(variant.source, DetectionSource::Running);
}

#[test]
fn test_detected_variant_from_plist() {
    let variant = DetectedVariant::new(
        Some(SkhdVariant::Zig),
        None,
        Some("com.jackielii.skhd".to_string()),
        DetectionSource::Plist,
    );

    assert!(variant.is_detected());
    assert_eq!(variant.variant, Some(SkhdVariant::Zig));
    assert_eq!(variant.binary_path, None);
    assert_eq!(variant.plist_label, Some("com.jackielii.skhd".to_string()));
    assert_eq!(variant.source, DetectionSource::Plist);
}

#[test]
fn variant_detector_test_test_detected_variant_none() {
    let variant = DetectedVariant::none();

    assert!(!variant.is_detected());
    assert_eq!(variant.variant, None);
    assert_eq!(variant.binary_path, None);
    assert_eq!(variant.plist_label, None);
    assert_eq!(variant.source, DetectionSource::Undetected);
}

#[test]
fn test_skhd_variant_equality() {
    assert_eq!(SkhdVariant::Original, SkhdVariant::Original);
    assert_eq!(SkhdVariant::Zig, SkhdVariant::Zig);
    assert_ne!(SkhdVariant::Original, SkhdVariant::Zig);
}

#[test]
fn test_detection_source_equality() {
    assert_eq!(DetectionSource::Running, DetectionSource::Running);
    assert_eq!(DetectionSource::Plist, DetectionSource::Plist);
    assert_eq!(DetectionSource::Homebrew, DetectionSource::Homebrew);
    assert_eq!(DetectionSource::Path, DetectionSource::Path);
    assert_eq!(DetectionSource::AppBundle, DetectionSource::AppBundle);
    assert_eq!(DetectionSource::Undetected, DetectionSource::Undetected);

    assert_ne!(DetectionSource::Running, DetectionSource::Homebrew);
    assert_ne!(DetectionSource::Path, DetectionSource::AppBundle);
}

#[test]
fn test_detected_variant_descriptions() {
    let original = DetectedVariant::new(
        Some(SkhdVariant::Original),
        None,
        None,
        DetectionSource::Running,
    );
    assert_eq!(original.description(), "skhd (original)");

    let zig = DetectedVariant::new(
        Some(SkhdVariant::Zig),
        None,
        None,
        DetectionSource::AppBundle,
    );
    assert_eq!(zig.description(), "skhd.zig");

    let none = DetectedVariant::none();
    assert_eq!(none.description(), "Not detected");
}
