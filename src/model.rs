//! The data that the engine tracks, plans and installs.
use vstd::prelude::*;
use crate::text::{chars_of, lower, lower_vec, seq_eq};

verus! {

/// How a tracked project is installed.
#[derive(Debug, Clone, Copy, PartialEq, Eq, Structural)]
pub enum InstallMode {
    /// Infer from the asset: a library goes to the installation root, an
    /// archive is extracted into libraries and addon folders.
    Auto,
    /// Addon folders from a release archive.
    Addon,
    /// Addon folders synced straight from a git branch.
    AddonGit,
    /// A dynamic library, or the libraries inside an archive.
    Dll,
    /// Libraries and addon folders from one archive.
    Mixed,
    /// The asset as it is, into a chosen folder.
    Raw,
}

/// The stored name of each mode.
pub open spec fn mode_name(m: InstallMode) -> Seq<char> {
    match m {
        InstallMode::Auto => "auto"@,
        InstallMode::Addon => "addon"@,
        InstallMode::AddonGit => "addon_git"@,
        InstallMode::Dll => "dll"@,
        InstallMode::Mixed => "mixed"@,
        InstallMode::Raw => "raw"@,
    }
}

/// The mode that a lower-cased name denotes, aliases included.
pub open spec fn mode_of_lower(l: Seq<char>) -> Option<InstallMode> {
    if l == "auto"@ {
        Some(InstallMode::Auto)
    } else if l == "addon"@ {
        Some(InstallMode::Addon)
    } else if l == "addon_git"@ || l == "addongit"@ || l == "git_addon"@ {
        Some(InstallMode::AddonGit)
    } else if l == "dll"@ {
        Some(InstallMode::Dll)
    } else if l == "mixed"@ {
        Some(InstallMode::Mixed)
    } else if l == "raw"@ {
        Some(InstallMode::Raw)
    } else {
        None
    }
}

fn is_name(l: &Vec<char>, name: &str) -> (r: bool)
    ensures
        r == (l@ == name@),
{
    seq_eq(l, &chars_of(name))
}

impl InstallMode {
    pub fn as_str(&self) -> (r: &'static str)
        ensures
            r@ == mode_name(*self),
    {
        match self {
            InstallMode::Auto => "auto",
            InstallMode::Addon => "addon",
            InstallMode::AddonGit => "addon_git",
            InstallMode::Dll => "dll",
            InstallMode::Mixed => "mixed",
            InstallMode::Raw => "raw",
        }
    }

    /// Parses a mode name, ignoring ASCII case.
    pub fn from_str(s: &str) -> (r: Option<InstallMode>)
        ensures
            r == mode_of_lower(lower(s@)),
    {
        let l = lower_vec(&chars_of(s));
        if is_name(&l, "auto") {
            Some(InstallMode::Auto)
        } else if is_name(&l, "addon") {
            Some(InstallMode::Addon)
        } else if is_name(&l, "addon_git") || is_name(&l, "addongit") || is_name(&l, "git_addon") {
            Some(InstallMode::AddonGit)
        } else if is_name(&l, "dll") {
            Some(InstallMode::Dll)
        } else if is_name(&l, "mixed") {
            Some(InstallMode::Mixed)
        } else if is_name(&l, "raw") {
            Some(InstallMode::Raw)
        } else {
            None
        }
    }
}

} // verus!

verus! {

/// A tracked project as the store holds it.
#[derive(Debug, Clone)]
pub struct Repo {
    pub id: i64,
    /// Canonical project URL, without any releases suffix.
    pub url: String,
    /// "github", "gitlab" or "gitea".
    pub forge: String,
    pub host: String,
    /// Owner, or the full namespace path on a GitLab-style forge.
    pub owner: String,
    pub name: String,
    pub mode: InstallMode,
    pub enabled: bool,
    /// Branch followed in git mode; `None` follows the remote's default.
    pub git_branch: Option<String>,
    /// Optional pattern that picks the asset by name.
    pub asset_regex: Option<String>,
    /// Label of the release or commit last installed.
    pub last_version: Option<String>,
    /// Entity tag of the last conditional request.
    pub etag: Option<String>,
    pub installed_asset_id: Option<String>,
    pub installed_asset_name: Option<String>,
    pub installed_asset_size: Option<i64>,
    pub installed_asset_url: Option<String>,
}

/// The newest release of a project, as a forge reports it.
#[derive(Debug, Clone)]
pub struct LatestRelease {
    pub tag: String,
    pub name: Option<String>,
    pub assets: Vec<ReleaseAsset>,
}

/// One downloadable file of a release.
#[derive(Debug, Clone)]
pub struct ReleaseAsset {
    /// Forge-native id, when the forge gives one.
    pub id: Option<String>,
    pub name: String,
    pub download_url: String,
    pub size: Option<u64>,
    pub content_type: Option<String>,
    /// Lower-case hex SHA-256 digest supplied by the forge.
    pub sha256: Option<String>,
}

/// One artifact of a project's manifest as stored.
#[derive(Debug, Clone)]
pub struct InstallEntry {
    /// Path relative to the installation root where possible, else absolute.
    pub path: String,
    /// "dll", "addon" or "raw".
    pub kind: String,
}

/// Choices of how artifacts are materialised.
#[derive(Debug, Clone, Copy, Default)]
pub struct InstallOptions {
    pub use_symlinks: bool,
    pub set_xattr_comment: bool,
    pub replace_addon_conflicts: bool,
}

/// The kind of an installed artifact.
#[derive(Debug, Clone, Copy, PartialEq, Eq, Structural)]
pub enum ArtifactKind {
    Addon,
    Dll,
    Raw,
}

pub open spec fn kind_name(k: ArtifactKind) -> Seq<char> {
    match k {
        ArtifactKind::Addon => "addon"@,
        ArtifactKind::Dll => "dll"@,
        ArtifactKind::Raw => "raw"@,
    }
}

impl ArtifactKind {
    pub fn as_str(&self) -> (r: &'static str)
        ensures
            r@ == kind_name(*self),
    {
        match self {
            ArtifactKind::Addon => "addon",
            ArtifactKind::Dll => "dll",
            ArtifactKind::Raw => "raw",
        }
    }
}

/// One artifact that an install produced.
#[derive(Debug, Clone)]
pub struct InstallRecord {
    pub path: String,
    pub kind: ArtifactKind,
}

} // verus!

verus! {

pub fn copy_opt_string(o: &Option<String>) -> (r: Option<String>)
    ensures
        r == *o,
{
    match o {
        Some(s) => Some(s.clone()),
        None => None,
    }
}

/// A field-for-field copy of an asset.
pub fn copy_asset(a: &ReleaseAsset) -> (r: ReleaseAsset)
    ensures
        r == *a,
{
    ReleaseAsset {
        id: copy_opt_string(&a.id),
        name: a.name.clone(),
        download_url: a.download_url.clone(),
        size: a.size,
        content_type: copy_opt_string(&a.content_type),
        sha256: copy_opt_string(&a.sha256),
    }
}

/// A copy of a release, asset for asset.
pub fn copy_release(r: &LatestRelease) -> (c: LatestRelease)
    ensures
        c.tag == r.tag,
        c.name == r.name,
        c.assets@ == r.assets@,
{
    let mut assets: Vec<ReleaseAsset> = Vec::new();
    let mut i: usize = 0;
    while i < r.assets.len()
        invariant
            i <= r.assets.len(),
            assets@ == r.assets@.subrange(0, i as int),
        decreases r.assets.len() - i,
    {
        assets.push(copy_asset(&r.assets[i]));
        i = i + 1;
        assert(assets@ =~= r.assets@.subrange(0, i as int));
    }
    assert(r.assets@.subrange(0, r.assets.len() as int) =~= r.assets@);
    LatestRelease { tag: r.tag.clone(), name: copy_opt_string(&r.name), assets }
}

} // verus!
