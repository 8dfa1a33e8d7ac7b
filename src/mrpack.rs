//! The pack manifest model: declared files, their digests, the roles they
//! apply to, and the pack's metadata.
use std::collections::HashMap;
use vstd::prelude::*;

verus! {

#[verifier::external_type_specification]
#[verifier::external_body]
pub struct ExVersion(semver::Version);

/// A dependency tag of the pack: a known loader or game, or any other name.
#[derive(Debug, Clone, Hash, PartialEq, Eq)]
pub enum DependencyId {
    Minecraft,
    Forge,
    Neoforge,
    FabricLoader,
    QuiltLoader,
    Other(String),
}

impl DependencyId {
    /// The display name of a tag.
    pub open spec fn spec_label(&self) -> Seq<char> {
        match self {
            DependencyId::Minecraft => "Minecraft"@,
            DependencyId::Forge => "Forge"@,
            DependencyId::Neoforge => "NeoForge"@,
            DependencyId::FabricLoader => "Fabric"@,
            DependencyId::QuiltLoader => "Quilt"@,
            DependencyId::Other(name) => name@,
        }
    }

    /// Renders the tag for display.
    pub fn label(&self) -> (r: String)
        ensures
            r@ == self.spec_label(),
    {
        match self {
            DependencyId::Minecraft => String::from_str("Minecraft"),
            DependencyId::Forge => String::from_str("Forge"),
            DependencyId::Neoforge => String::from_str("NeoForge"),
            DependencyId::FabricLoader => String::from_str("Fabric"),
            DependencyId::QuiltLoader => String::from_str("Quilt"),
            DependencyId::Other(name) => name.clone(),
        }
    }
}

/// The declared digests of a file. Other algorithms are kept, not checked.
#[derive(Debug, Clone)]
pub struct FileHashes {
    pub sha1: [u8; 20],
    pub sha512: [u8; 64],
    pub other_hashes: HashMap<String, String>,
}

/// Whether a role needs, may use, or cannot use a file.
#[derive(Debug, Clone, Copy, Hash, PartialEq, Eq, Structural)]
pub enum Requirement {
    Required,
    Optional,
    Unsupported,
}

/// The requirement of a file on each side.
#[derive(Debug, Clone, Copy, PartialEq, Eq, Structural)]
pub struct Environment {
    pub client: Requirement,
    pub server: Requirement,
}

/// One declared file: where it goes, what it must hash to, which roles use
/// it, and the mirrors it can be fetched from, in order of preference.
#[derive(Debug, Clone)]
pub struct MRFile {
    /// Path relative to the sync root, `/`-separated.
    pub path: String,
    pub hashes: FileHashes,
    pub env: Option<Environment>,
    pub downloads: Vec<String>,
    pub file_size: u32,
}

/// The parsed pack manifest.
#[derive(Debug, Clone)]
pub struct MRIndex {
    pub game: String,
    pub format_version: u32,
    pub version_id: String,
    pub name: String,
    pub files: Vec<MRFile>,
    pub dependencies: HashMap<DependencyId, semver::Version>,
}

/// A file belongs to a server sync unless its environment marks the server
/// side unsupported; a file without an environment applies everywhere.
pub open spec fn spec_applies_to_server(f: MRFile) -> bool {
    match f.env {
        None => true,
        Some(env) => env.server != Requirement::Unsupported,
    }
}

impl MRFile {
    /// Whether this file takes part in a server sync.
    pub fn applies_to_server(&self) -> (r: bool)
        ensures
            r == spec_applies_to_server(*self),
    {
        match &self.env {
            None => true,
            Some(env) => env.server != Requirement::Unsupported,
        }
    }

    /// Whether the given bytes are valid content for this file: both declared
    /// digests must match.
    pub fn is_valid_content(&self, data: &[u8]) -> (r: bool)
        ensures
            r == crate::verify::content_valid(data@, self.hashes.sha1@, self.hashes.sha512@),
    {
        crate::verify::content_is_valid(data, self.hashes.sha1.as_slice(), self.hashes.sha512.as_slice())
    }
}

} // verus!
