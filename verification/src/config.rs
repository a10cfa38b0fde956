//! Application configuration values and their defaults.

use vstd::prelude::*;
use std::path::PathBuf;

verus! {

#[verifier::external_type_specification]
#[verifier::external_body]
pub struct ExPathBuf(std::path::PathBuf);

/// Model quality setting.
#[derive(Debug, Clone, Copy, PartialEq, Eq, Structural)]
pub enum ModelQuality {
    Minimal,
    Standard,
    High,
}

impl Default for ModelQuality {
    fn default() -> (q: ModelQuality)
        ensures
            q == ModelQuality::Minimal,
    {
        ModelQuality::Minimal
    }
}

/// The identifier of a model quality, as stored in configuration files.
pub open spec fn quality_id(q: ModelQuality) -> Seq<char> {
    match q {
        ModelQuality::Minimal => "minimal"@,
        ModelQuality::Standard => "standard"@,
        ModelQuality::High => "high"@,
    }
}

/// The human-readable name of a model quality.
pub open spec fn quality_display_name(q: ModelQuality) -> Seq<char> {
    match q {
        ModelQuality::Minimal => "Minimal (Fast)"@,
        ModelQuality::Standard => "Standard"@,
        ModelQuality::High => "High Quality"@,
    }
}

impl ModelQuality {
    pub fn as_str(&self) -> (s: &'static str)
        ensures
            s@ == quality_id(*self),
    {
        match self {
            ModelQuality::Minimal => "minimal",
            ModelQuality::Standard => "standard",
            ModelQuality::High => "high",
        }
    }

    pub fn display_name(&self) -> (s: &'static str)
        ensures
            s@ == quality_display_name(*self),
    {
        match self {
            ModelQuality::Minimal => "Minimal (Fast)",
            ModelQuality::Standard => "Standard",
            ModelQuality::High => "High Quality",
        }
    }
}

/// Distinct qualities have distinct identifiers, so the identifier
/// determines the quality.
pub proof fn lemma_quality_id_injective(a: ModelQuality, b: ModelQuality)
    ensures
        quality_id(a) == quality_id(b) ==> a == b,
{
    reveal_strlit("minimal");
    reveal_strlit("standard");
    reveal_strlit("high");
    if a != b {
        match (a, b) {
            (ModelQuality::Minimal, ModelQuality::Standard) | (ModelQuality::Standard, ModelQuality::Minimal) => {
                assert(quality_id(a).len() != quality_id(b).len());
            },
            (ModelQuality::Minimal, ModelQuality::High) | (ModelQuality::High, ModelQuality::Minimal) => {
                assert(quality_id(a)[0] != quality_id(b)[0]);
            },
            (ModelQuality::Standard, ModelQuality::High) | (ModelQuality::High, ModelQuality::Standard) => {
                assert(quality_id(a).len() != quality_id(b).len());
            },
            _ => {},
        }
    }
}

/// Model management settings.
#[derive(Debug, Clone, Copy, PartialEq, Eq, Structural)]
pub struct ModelConfig {
    /// Auto-download missing models.
    pub auto_download: bool,
    /// Check for model updates on startup.
    pub check_updates: bool,
}

impl Default for ModelConfig {
    fn default() -> (c: ModelConfig)
        ensures
            c.auto_download,
            !c.check_updates,
    {
        ModelConfig { auto_download: true, check_updates: false }
    }
}

/// Theme preference.
#[derive(Debug, Clone, Copy, PartialEq, Eq, Structural)]
pub enum Theme {
    Dark,
    Light,
    System,
}

impl Default for Theme {
    fn default() -> (t: Theme)
        ensures
            t == Theme::Dark,
    {
        Theme::Dark
    }
}

/// Processing defaults.
#[derive(Debug, Clone, Copy, PartialEq, Eq, Structural)]
pub struct ProcessingDefaults {
    /// Default output size.
    pub default_output_size: u32,
    /// Default edge thickness.
    pub default_edge_thickness: u32,
}

impl Default for ProcessingDefaults {
    fn default() -> (d: ProcessingDefaults)
        ensures
            d.default_output_size == 32,
            d.default_edge_thickness == 1,
    {
        ProcessingDefaults { default_output_size: 32, default_edge_thickness: 1 }
    }
}

impl ProcessingDefaults {
    /// The output size the editor starts with: the persisted default, at
    /// least 16.
    pub fn startup_output_size(&self) -> (s: u32)
        ensures
            s == (if self.default_output_size < 16 { 16 } else { self.default_output_size }),
    {
        if self.default_output_size < 16 {
            16
        } else {
            self.default_output_size
        }
    }

    /// The edge thickness the editor starts with: the persisted default
    /// clamped to `1..=4`.
    pub fn startup_edge_thickness(&self) -> (t: u32)
        ensures
            t == (if self.default_edge_thickness < 1 {
                1
            } else if self.default_edge_thickness > 4 {
                4
            } else {
                self.default_edge_thickness
            }),
            1 <= t <= 4,
    {
        if self.default_edge_thickness < 1 {
            1
        } else if self.default_edge_thickness > 4 {
            4
        } else {
            self.default_edge_thickness
        }
    }
}

/// Last used directories.
#[derive(Debug, Clone)]
pub struct DirectoryConfig {
    /// Last opened image directory.
    pub last_image_dir: Option<PathBuf>,
    /// Last export directory.
    pub last_export_dir: Option<PathBuf>,
    /// Custom model directory.
    pub custom_model_dir: Option<PathBuf>,
}

impl Default for DirectoryConfig {
    fn default() -> (d: DirectoryConfig)
        ensures
            d.last_image_dir is None,
            d.last_export_dir is None,
            d.custom_model_dir is None,
    {
        DirectoryConfig { last_image_dir: None, last_export_dir: None, custom_model_dir: None }
    }
}

} // verus!
