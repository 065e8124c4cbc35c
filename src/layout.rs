//! The on-disk layout: `root/versions/<version>/<platform>/<binary>`, and
//! `root/bin/<binary>` for the link to the current compiler.

use vstd::prelude::*;
use vstd::string::*;
use crate::catalogue::AssetRef;
use crate::target::Target;
use crate::version::{is_version_text, lemma_version_text_injective, ParseError, Version};

verus! {

/// The directory of the link to the current compiler.
pub const COMPACTUP_BIN_DIR: &'static str = "bin";

/// The directory that holds one directory per installed version.
pub const COMPACTUP_VERSIONS_DIR: &'static str = "versions";

/// The file name of the compiler executable.
pub const COMPILER_NAME: &'static str = "compactc";

/// The file name of the downloaded archive.
pub const ARCHIVE_NAME: &'static str = "artifact";

/// The directory under the home directory that is the default root.
pub const DEFAULT_ROOT_NAME: &'static str = ".compact";

/// A filesystem path as its sequence of components.
#[derive(Debug, Clone, PartialEq, Eq)]
pub struct ToolchainPath {
    pub components: Vec<String>,
}

impl View for ToolchainPath {
    type V = Seq<Seq<char>>;

    open spec fn view(&self) -> Seq<Seq<char>> {
        self.components@.map_values(|c: String| c@)
    }
}

impl ToolchainPath {
    pub fn new(components: Vec<String>) -> (r: ToolchainPath)
        ensures
            r.components@ == components@,
    {
        ToolchainPath { components }
    }

    pub fn duplicate(&self) -> (r: ToolchainPath)
        ensures
            r@ == self@,
    {
        let mut out: Vec<String> = Vec::new();
        let mut k: usize = 0;
        while k < self.components.len()
            invariant
                k <= self.components@.len(),
                out@.len() == k,
                forall|i: int| 0 <= i < k ==> (#[trigger] out@[i])@ == self.components@[i]@,
            decreases self.components@.len() - k,
        {
            out.push(self.components[k].clone());
            k = k + 1;
        }
        let r = ToolchainPath { components: out };
        assert(r@ =~= self@);
        r
    }

    /// The path with one more component.
    pub fn join(&self, name: &str) -> (r: ToolchainPath)
        ensures
            r@ == self@.push(name@),
    {
        let mut r = self.duplicate();
        r.components.push(name.to_owned());
        assert(r@ =~= self@.push(name@));
        r
    }
}

/// `base/a/b/c`.
pub open spec fn join3(base: Seq<Seq<char>>, a: Seq<char>, b: Seq<char>, c: Seq<char>) -> Seq<
    Seq<char>,
> {
    base.push(a).push(b).push(c)
}

/// The directory of a version for a platform under `root`.
pub open spec fn compiler_dir_of(root: Seq<Seq<char>>, v: Version, t: Target) -> Seq<Seq<char>> {
    join3(root, COMPACTUP_VERSIONS_DIR@, v.text(), t.spec_name())
}

/// The compiler executable of a version for a platform under `root`.
pub open spec fn entrypoint_of(root: Seq<Seq<char>>, v: Version, t: Target) -> Seq<Seq<char>> {
    compiler_dir_of(root, v, t).push(COMPILER_NAME@)
}

/// The downloaded archive of a version for a platform under `root`.
pub open spec fn archive_of(root: Seq<Seq<char>>, v: Version, t: Target) -> Seq<Seq<char>> {
    compiler_dir_of(root, v, t).push(ARCHIVE_NAME@)
}

/// The link to the current compiler under `root`.
pub open spec fn link_of(root: Seq<Seq<char>>) -> Seq<Seq<char>> {
    root.push(COMPACTUP_BIN_DIR@).push(COMPILER_NAME@)
}

/// The root directory of all installed toolchains.
#[derive(Debug, Clone, PartialEq, Eq)]
pub struct CompactDirectory(pub ToolchainPath);

impl CompactDirectory {
    pub open spec fn root(&self) -> Seq<Seq<char>> {
        self.0@
    }

    /// The default root: `.compact` under the home directory.
    pub fn under_home(home: &ToolchainPath) -> (r: CompactDirectory)
        ensures
            r.root() == home@.push(DEFAULT_ROOT_NAME@),
    {
        CompactDirectory(home.join(DEFAULT_ROOT_NAME))
    }

    pub fn bin_dir(&self) -> (r: ToolchainPath)
        ensures
            r@ == self.root().push(COMPACTUP_BIN_DIR@),
    {
        self.0.join(COMPACTUP_BIN_DIR)
    }

    pub fn versions_dir(&self) -> (r: ToolchainPath)
        ensures
            r@ == self.root().push(COMPACTUP_VERSIONS_DIR@),
    {
        self.0.join(COMPACTUP_VERSIONS_DIR)
    }

    /// Where the link to the current compiler lives.
    pub fn link_path(&self) -> (r: ToolchainPath)
        ensures
            r@ == link_of(self.root()),
    {
        self.bin_dir().join(COMPILER_NAME)
    }

    /// The directory of `version` for `target`.
    pub fn compiler_dir(&self, version: Version, target: Target) -> (r: ToolchainPath)
        ensures
            r@ == compiler_dir_of(self.root(), version, target),
    {
        let v = version.to_string();
        self.versions_dir().join(v.as_str()).join(target.name())
    }
}

/// A compiler release for one platform, placed in the layout.
#[derive(Debug, Clone)]
pub struct CompilerAsset {
    pub path: ToolchainPath,
    pub asset: AssetRef,
    pub version: Version,
}

impl CompilerAsset {
    pub fn path_zip(&self) -> (r: ToolchainPath)
        ensures
            r@ == self.path@.push(ARCHIVE_NAME@),
    {
        self.path.join(ARCHIVE_NAME)
    }

    pub fn path_compactc(&self) -> (r: ToolchainPath)
        ensures
            r@ == self.path@.push(COMPILER_NAME@),
    {
        self.path.join(COMPILER_NAME)
    }

    pub fn download_url(&self) -> (r: &String)
        ensures
            r@ == self.asset.download_url@,
    {
        &self.asset.download_url
    }
}

/// Why a path is not the compiler of some version and platform.
#[derive(Debug, Clone, PartialEq, Eq)]
pub enum LayoutError {
    /// The path is too short to hold a version and a platform directory.
    TooShort,
    /// The platform directory names no known platform.
    UnknownTarget { name: String },
    /// The version directory is not a version.
    InvalidVersion { error: ParseError },
}

/// Whether the second-to-last and third-to-last components of `p` name a
/// platform and a version.
pub open spec fn decomposable(p: Seq<Seq<char>>) -> bool {
    p.len() >= 3 && (exists|t: Target| p[p.len() - 2] == #[trigger] t.spec_name())
        && is_version_text(p[p.len() - 3])
}

/// What decomposing `p` gives: the version and platform of the two parent
/// directories, or an error when they are not both valid.
pub open spec fn decomposition(p: Seq<Seq<char>>, r: Result<(Version, Target), LayoutError>) -> bool {
    match r {
        Ok((v, t)) => p.len() >= 3 && p[p.len() - 2] == t.spec_name() && p[p.len() - 3] == v.text(),
        Err(_) => !decomposable(p),
    }
}

/// Recovers the version and platform from a compiler path by walking two
/// parent directories.
pub fn decompose(path: &ToolchainPath) -> (r: Result<(Version, Target), LayoutError>)
    ensures
        decomposition(path@, r),
{
    let n = path.components.len();
    if n < 3 {
        return Err(LayoutError::TooShort);
    }
    let target_name = &path.components[n - 2];
    assert(path@[n - 2] == target_name@);
    let target = match Target::from_name(target_name.as_str()) {
        Some(t) => t,
        None => {
            return Err(LayoutError::UnknownTarget { name: target_name.clone() });
        },
    };
    let version_name = &path.components[n - 3];
    assert(path@[n - 3] == version_name@);
    match Version::parse(version_name.as_str()) {
        Ok(v) => Ok((v, target)),
        Err(error) => Err(LayoutError::InvalidVersion { error }),
    }
}

/// Decomposing the compiler path of a version and platform gives back that
/// version and platform.
pub proof fn law_layout_round_trip(
    root: Seq<Seq<char>>,
    v: Version,
    t: Target,
    r: Result<(Version, Target), LayoutError>,
)
    requires
        decomposition(entrypoint_of(root, v, t), r),
    ensures
        r == Ok::<(Version, Target), LayoutError>((v, t)),
{
    let p = entrypoint_of(root, v, t);
    assert(p[p.len() - 2] == t.spec_name());
    assert(p[p.len() - 3] == v.text());
    assert(is_version_text(v.text()));
    if let Ok((w, u)) = r {
        lemma_version_text_injective(v, w);
        reveal_strlit("x86_64-unknown-linux-musl");
        reveal_strlit("x86_64-apple-darwin");
        reveal_strlit("aarch64-apple-darwin");
        assert(t.spec_name() == u.spec_name());
        if t != u {
            assert(t.spec_name()[0] != u.spec_name()[0] || t.spec_name()[1] != u.spec_name()[1]);
        }
    }
}

} // verus!
