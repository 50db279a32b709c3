//! The skhd variants, how one was detected, the user's preference, and service states.
use vstd::prelude::*;

verus! {

/// Which skhd implementation is in use.
#[derive(Debug, Clone, Copy, PartialEq, Eq, Structural)]
pub enum SkhdVariant {
    /// koekeishiya/skhd
    Original,
    /// jackielii/skhd.zig
    Zig,
}

pub open spec fn spec_display_name(v: SkhdVariant) -> Seq<char> {
    match v {
        SkhdVariant::Original => "skhd"@,
        SkhdVariant::Zig => "skhd.zig"@,
    }
}

pub open spec fn spec_plist_label(v: SkhdVariant) -> Seq<char> {
    match v {
        SkhdVariant::Original => "com.koekeishiya.skhd"@,
        SkhdVariant::Zig => "com.jackielii.skhd"@,
    }
}

impl SkhdVariant {
    /// The name under which messages refer to this variant.
    pub fn display_name(&self) -> (r: &'static str)
        ensures
            r@ == spec_display_name(*self),
    {
        match self {
            SkhdVariant::Original => "skhd",
            SkhdVariant::Zig => "skhd.zig",
        }
    }

    /// The launchd label of this variant's service.
    pub fn plist_label(&self) -> (r: &'static str)
        ensures
            r@ == spec_plist_label(*self),
    {
        match self {
            SkhdVariant::Original => "com.koekeishiya.skhd",
            SkhdVariant::Zig => "com.jackielii.skhd",
        }
    }
}

/// How a variant was found.
#[derive(Debug, Clone, Copy, PartialEq, Eq, Structural)]
pub enum DetectionSource {
    /// A launchd job of the variant is loaded.
    Running,
    /// A launchd plist of the variant is installed.
    Plist,
    /// A Homebrew formula of the variant is installed.
    Homebrew,
    /// An `skhd` binary was found on PATH.
    Path,
    /// The skhd.zig application bundle is installed.
    AppBundle,
    /// Nothing was found.
    Undetected,
}

/// The outcome of looking for an installed skhd.
#[derive(Debug, Clone, PartialEq)]
pub struct DetectedVariant {
    pub variant: Option<SkhdVariant>,
    pub binary_path: Option<String>,
    pub plist_label: Option<String>,
    pub source: DetectionSource,
}

pub struct DetectedModel {
    pub variant: Option<SkhdVariant>,
    pub binary_path: Option<Seq<char>>,
    pub plist_label: Option<Seq<char>>,
    pub source: DetectionSource,
}

impl View for DetectedVariant {
    type V = DetectedModel;

    open spec fn view(&self) -> DetectedModel {
        DetectedModel {
            variant: self.variant,
            binary_path: self.binary_path.deep_view(),
            plist_label: self.plist_label.deep_view(),
            source: self.source,
        }
    }
}

pub open spec fn spec_description(v: Option<SkhdVariant>) -> Seq<char> {
    match v {
        Some(SkhdVariant::Original) => "skhd (original)"@,
        Some(SkhdVariant::Zig) => "skhd.zig"@,
        None => "Not detected"@,
    }
}

impl DetectedVariant {
    pub fn new(
        variant: Option<SkhdVariant>,
        binary_path: Option<String>,
        plist_label: Option<String>,
        source: DetectionSource,
    ) -> (r: DetectedVariant)
        ensures
            r.variant == variant,
            r.binary_path == binary_path,
            r.plist_label == plist_label,
            r.source == source,
    {
        DetectedVariant { variant, binary_path, plist_label, source }
    }

    /// Nothing detected.
    pub fn none() -> (r: DetectedVariant)
        ensures
            r.variant is None,
            r.binary_path is None,
            r.plist_label is None,
            r.source == DetectionSource::Undetected,
    {
        DetectedVariant {
            variant: None,
            binary_path: None,
            plist_label: None,
            source: DetectionSource::Undetected,
        }
    }

    /// Whether a variant was found.
    pub fn is_detected(&self) -> (r: bool)
        ensures
            r == self.variant is Some,
    {
        self.variant.is_some()
    }

    /// A human-readable name of what was found.
    pub fn description(&self) -> (r: &'static str)
        ensures
            r@ == spec_description(self.variant),
    {
        match self.variant {
            Some(SkhdVariant::Original) => "skhd (original)",
            Some(SkhdVariant::Zig) => "skhd.zig",
            None => "Not detected",
        }
    }
}

/// The user's preferred skhd variant.
#[derive(Debug, Clone, Copy, PartialEq, Eq, Structural)]
pub enum SkhdVariantSetting {
    /// Detect the variant (the default).
    Auto,
    /// Always use the original skhd.
    Original,
    /// Always use skhd.zig.
    Zig,
}

pub open spec fn spec_to_variant(s: SkhdVariantSetting) -> Option<SkhdVariant> {
    match s {
        SkhdVariantSetting::Auto => None,
        SkhdVariantSetting::Original => Some(SkhdVariant::Original),
        SkhdVariantSetting::Zig => Some(SkhdVariant::Zig),
    }
}

/// The word under which a setting is stored and exchanged.
pub open spec fn spec_setting_str(s: SkhdVariantSetting) -> Seq<char> {
    match s {
        SkhdVariantSetting::Auto => "auto"@,
        SkhdVariantSetting::Original => "original"@,
        SkhdVariantSetting::Zig => "zig"@,
    }
}

impl Default for SkhdVariantSetting {
    fn default() -> (r: Self)
        ensures
            r == SkhdVariantSetting::Auto,
    {
        SkhdVariantSetting::Auto
    }
}

impl SkhdVariantSetting {
    /// Whether the variant is to be detected.
    pub fn is_auto(&self) -> (r: bool)
        ensures
            r == (*self == SkhdVariantSetting::Auto),
    {
        match self {
            SkhdVariantSetting::Auto => true,
            _ => false,
        }
    }

    /// The variant the setting forces, if any.
    pub fn to_variant(&self) -> (r: Option<SkhdVariant>)
        ensures
            r == spec_to_variant(*self),
    {
        match self {
            SkhdVariantSetting::Auto => None,
            SkhdVariantSetting::Original => Some(SkhdVariant::Original),
            SkhdVariantSetting::Zig => Some(SkhdVariant::Zig),
        }
    }

    /// The word for this setting: `auto`, `original` or `zig`.
    pub fn as_setting_str(&self) -> (r: &'static str)
        ensures
            r@ == spec_setting_str(*self),
    {
        match self {
            SkhdVariantSetting::Auto => "auto",
            SkhdVariantSetting::Original => "original",
            SkhdVariantSetting::Zig => "zig",
        }
    }
}

/// Settings that persist between launches.
#[derive(Debug, Clone, Copy, PartialEq, Eq, Structural)]
pub struct Settings {
    pub skhd_variant: SkhdVariantSetting,
}

impl Default for Settings {
    fn default() -> (r: Self)
        ensures
            r.skhd_variant == SkhdVariantSetting::Auto,
    {
        Settings { skhd_variant: SkhdVariantSetting::Auto }
    }
}

impl Settings {
    /// Settings with every value at its default.
    pub fn new() -> (r: Self)
        ensures
            r.skhd_variant == SkhdVariantSetting::Auto,
    {
        Settings { skhd_variant: SkhdVariantSetting::Auto }
    }
}

/// The state of the skhd service.
#[derive(Debug, Clone, Copy, PartialEq, Eq, Structural)]
pub enum ServiceState {
    Running,
    Stopped,
    Error,
    Unknown,
}

} // verus!
