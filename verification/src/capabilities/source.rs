//! Where a capability comes from and who may see it.

use crate::text::{clone_opt, contains, has_text, opt_view, same_text, starts_with, trim, trimmed};
use vstd::prelude::*;

verus! {

/// How close to the session a capability is defined.
#[derive(Clone, Copy, Debug, PartialEq, Eq, Structural)]
pub enum SourceLevel {
    Runtime,
    Project,
    User,
    BuiltIn,
}

/// Who may see a capability.
#[derive(Clone, Copy, Debug, PartialEq, Eq, Structural)]
pub enum CapabilityExposure {
    ModelDiscoverable,
    ModelAddressable,
    HostOnly,
}

/// Where a capability comes from. `real_path` is the canonical form of `source_path`, where
/// the file system gave one.
#[derive(Debug)]
pub struct SourceMeta {
    pub provider_id: String,
    pub provider_name: String,
    pub level: SourceLevel,
    pub source_path: Option<String>,
    pub real_path: Option<String>,
    pub display_label: Option<String>,
}

/// What a [`SourceMeta`] says.
pub struct SourceView {
    pub provider_id: Seq<char>,
    pub provider_name: Seq<char>,
    pub level: SourceLevel,
    pub source_path: Option<Seq<char>>,
    pub real_path: Option<Seq<char>>,
    pub display_label: Option<Seq<char>>,
}

impl View for SourceMeta {
    type V = SourceView;

    open spec fn view(&self) -> SourceView {
        SourceView {
            provider_id: self.provider_id@,
            provider_name: self.provider_name@,
            level: self.level,
            source_path: opt_view(self.source_path),
            real_path: opt_view(self.real_path),
            display_label: opt_view(self.display_label),
        }
    }
}

impl SourceView {
    /// How the source is shown to the model.
    pub open spec fn label(self) -> Seq<char> {
        match self.display_label {
            Some(label) => label,
            None => self.provider_name,
        }
    }
}

impl Clone for SourceMeta {
    fn clone(&self) -> (r: Self)
        ensures
            r == *self,
    {
        SourceMeta {
            provider_id: self.provider_id.clone(),
            provider_name: self.provider_name.clone(),
            level: self.level,
            source_path: clone_opt(&self.source_path),
            real_path: clone_opt(&self.real_path),
            display_label: clone_opt(&self.display_label),
        }
    }
}

impl SourceMeta {
    /// How the source is shown to the model.
    pub fn model_display_label(&self) -> (r: &str)
        ensures
            r@ == self@.label(),
    {
        match &self.display_label {
            Some(label) => label.as_str(),
            None => self.provider_name.as_str(),
        }
    }
}

impl CapabilityExposure {
    /// The exposure in words.
    pub open spec fn label_spec(self) -> Seq<char> {
        match self {
            CapabilityExposure::ModelDiscoverable => "model-discoverable"@,
            CapabilityExposure::ModelAddressable => "model-addressable"@,
            CapabilityExposure::HostOnly => "host-only"@,
        }
    }
}

/// The exposure in words.
pub fn exposure_label(exposure: CapabilityExposure) -> (r: &'static str)
    ensures
        r@ == exposure.label_spec(),
{
    match exposure {
        CapabilityExposure::ModelDiscoverable => "model-discoverable",
        CapabilityExposure::ModelAddressable => "model-addressable",
        CapabilityExposure::HostOnly => "host-only",
    }
}

/// Whether a directory with `name` can hold a skill: it is not hidden, and the name does not lead
/// out of the directory of the skills.
pub open spec fn valid_directory_name(name: Seq<char>) -> bool {
    &&& name.len() > 0
    &&& !"."@.is_prefix_of(name)
    &&& !has_text(name, "/"@)
    &&& !has_text(name, "\\"@)
    &&& !has_text(name, ".."@)
}

/// Whether a directory with `name` can hold a skill.
pub fn is_valid_directory_name(name: &str) -> (r: bool)
    ensures
        r == valid_directory_name(name@),
{
    !name.is_empty() && !starts_with(name, ".") && !contains(name, "/") && !contains(name, "\\")
        && !contains(name, "..")
}

/// Whether `name` can name a skill of the host: it has no white space at its ends and does not
/// lead out of the directory of the skills.
pub open spec fn valid_skill_name(name: Seq<char>) -> bool {
    trimmed(name) == name && valid_directory_name(name)
}

/// Whether `name` can name a skill of the host.
pub fn is_valid_skill_name(name: &str) -> (r: bool)
    ensures
        r == valid_skill_name(name@),
{
    let bare: String = trim(name);
    same_text(bare.as_str(), name) && is_valid_directory_name(name)
}

} // verus!
