//! Theme and manifest descriptions: what a theme is called and which
//! manifests and templates it is made of.
use std::path::PathBuf;

use vstd::prelude::*;

use crate::text::owned;

verus! {

/// `std::path::PathBuf`, a file system path; its contents are not looked
/// into here.
#[verifier::external_type_specification]
#[verifier::external_body]
pub struct ExPathBuf(PathBuf);

/// A theme: its description and the manifests it refers to.
#[derive(Debug)]
pub struct ThemeConfig {
    pub theme: ThemeInfo,
    pub manifests: Vec<ManifestReferenceInfo>,
}

/// The name, label and description of a theme.
#[derive(Debug, Clone)]
pub struct ThemeInfo {
    pub name: String,
    pub label: String,
    pub description: String,
}

/// A reference to a theme by path, optionally named.
#[derive(Debug)]
pub struct ThemeReferenceInfo {
    pub name: Option<String>,
    pub path: PathBuf,
}

/// A manifest: its description and the templates it provides.
#[derive(Debug)]
pub struct ManifestConfig {
    pub manifest: ManifestInfo,
    pub templates: Vec<TemplateInfo>,
}

/// The name, label and description of a manifest.
#[derive(Debug, Clone)]
pub struct ManifestInfo {
    pub name: String,
    pub label: String,
    pub description: String,
}

/// A reference to a manifest by path, optionally named.
#[derive(Debug)]
pub struct ManifestReferenceInfo {
    pub name: Option<String>,
    pub path: PathBuf,
}

/// A template: a static file, a Tera template file, or inline text.
#[derive(Debug)]
pub enum TemplateInfo {
    Static { name: String, path: PathBuf },
    Tera { name: String, path: PathBuf },
    Text { name: String, text: String },
}

impl TemplateInfo {
    /// The template's name, whatever its kind.
    pub fn name(&self) -> (r: &String)
        ensures
            match self {
                TemplateInfo::Static { name, .. } => r == name,
                TemplateInfo::Tera { name, .. } => r == name,
                TemplateInfo::Text { name, .. } => r == name,
            },
    {
        match self {
            TemplateInfo::Static { name, .. } => name,
            TemplateInfo::Tera { name, .. } => name,
            TemplateInfo::Text { name, .. } => name,
        }
    }
}

impl Default for ThemeInfo {
    /// The theme called "default", labelled "Default", with no description.
    fn default() -> (r: ThemeInfo)
        ensures
            r.name@ == "default"@,
            r.label@ == "Default"@,
            r.description@ == ""@,
    {
        ThemeInfo { name: owned("default"), label: owned("Default"), description: owned("") }
    }
}

impl Default for ThemeConfig {
    /// The default theme, referring to no manifests.
    fn default() -> (r: ThemeConfig)
        ensures
            r.theme.name@ == "default"@,
            r.theme.label@ == "Default"@,
            r.theme.description@ == ""@,
            r.manifests@.len() == 0,
    {
        ThemeConfig { theme: ThemeInfo::default(), manifests: Vec::new() }
    }
}

impl Default for ManifestInfo {
    /// The manifest called "default", labelled "Default", with no
    /// description.
    fn default() -> (r: ManifestInfo)
        ensures
            r.name@ == "default"@,
            r.label@ == "Default"@,
            r.description@ == ""@,
    {
        ManifestInfo { name: owned("default"), label: owned("Default"), description: owned("") }
    }
}

impl Default for ManifestConfig {
    /// The default manifest, providing no templates.
    fn default() -> (r: ManifestConfig)
        ensures
            r.manifest.name@ == "default"@,
            r.manifest.label@ == "Default"@,
            r.manifest.description@ == ""@,
            r.templates@.len() == 0,
    {
        ManifestConfig { manifest: ManifestInfo::default(), templates: Vec::new() }
    }
}

} // verus!
