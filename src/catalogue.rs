//! The catalogue of published compiler releases, ordered by version.

use vstd::prelude::*;
use vstd::string::*;
use crate::text::{contains, contains_seq, strip_prefix};
use crate::version::{
    is_version_text, lemma_version_text_injective, ParseError, Version, VersionSpec,
};

verus! {

/// The prefix of a compiler release tag; the version follows it.
pub const RELEASE_TAG_PREFIX: &'static str = "compactc-v";

/// A downloadable file of a release: its name and where to fetch it.
#[derive(Debug, Clone, PartialEq, Eq)]
pub struct AssetRef {
    pub name: String,
    pub download_url: String,
}

impl View for AssetRef {
    type V = (Seq<char>, Seq<char>);

    open spec fn view(&self) -> (Seq<char>, Seq<char>) {
        (self.name@, self.download_url@)
    }
}

impl AssetRef {
    pub fn new(name: String, download_url: String) -> (r: AssetRef)
        ensures
            r.name@ == name@,
            r.download_url@ == download_url@,
    {
        AssetRef { name, download_url }
    }

    pub fn duplicate(&self) -> (r: AssetRef)
        ensures
            r@ == self@,
    {
        AssetRef { name: self.name.clone(), download_url: self.download_url.clone() }
    }
}

/// A published release as the release source lists it.
#[derive(Debug, Clone)]
pub struct RawRelease {
    pub tag_name: String,
    pub assets: Vec<AssetRef>,
}

impl View for RawRelease {
    type V = (Seq<char>, Seq<(Seq<char>, Seq<char>)>);

    open spec fn view(&self) -> (Seq<char>, Seq<(Seq<char>, Seq<char>)>) {
        (self.tag_name@, self.assets@.map_values(|a: AssetRef| a@))
    }
}

/// A compiler release with the artifact of each platform family.
#[derive(Debug, Clone)]
pub struct MidnightCompiler {
    pub version: Version,
    pub macos: AssetRef,
    pub linux: AssetRef,
}

impl View for MidnightCompiler {
    type V = (Version, (Seq<char>, Seq<char>), (Seq<char>, Seq<char>));

    open spec fn view(&self) -> (Version, (Seq<char>, Seq<char>), (Seq<char>, Seq<char>)) {
        (self.version, self.macos@, self.linux@)
    }
}

impl MidnightCompiler {
    pub fn duplicate(&self) -> (r: MidnightCompiler)
        ensures
            r@ == self@,
    {
        MidnightCompiler {
            version: self.version,
            macos: self.macos.duplicate(),
            linux: self.linux.duplicate(),
        }
    }
}

/// A release record that does not have the expected shape.
#[derive(Debug, Clone, PartialEq, Eq)]
pub enum FormatError {
    /// The tag does not start with the release prefix.
    InvalidTag { tag: String },
    /// What follows the prefix is not a version.
    InvalidVersion { tag: String, reason: String },
    /// An asset names neither platform family.
    UnsupportedPlatform { tag: String, asset: String },
    /// No macOS artifact.
    MissingMacos { tag: String },
    /// No Linux artifact.
    MissingLinux { tag: String },
}

/// Which platform family an artifact name is for: `Some(true)` for macOS,
/// `Some(false)` for Linux.
pub open spec fn asset_family(name: Seq<char>) -> Option<bool> {
    if contains_seq(name, "apple-darwin"@) {
        Some(true)
    } else if contains_seq(name, "linux"@) {
        Some(false)
    } else {
        None
    }
}

pub open spec fn has_tag_prefix(tag: Seq<char>) -> bool {
    RELEASE_TAG_PREFIX@.len() <= tag.len() && tag.take(RELEASE_TAG_PREFIX@.len() as int)
        == RELEASE_TAG_PREFIX@
}

/// The text after the release prefix.
pub open spec fn tag_rest(tag: Seq<char>) -> Seq<char> {
    tag.skip(RELEASE_TAG_PREFIX@.len() as int)
}

pub open spec fn all_supported(assets: Seq<(Seq<char>, Seq<char>)>) -> bool {
    forall|i: int| 0 <= i < assets.len() ==> (#[trigger] asset_family(assets[i].0)) is Some
}

/// The last artifact of the given family; a later one replaces an earlier one.
pub open spec fn last_of_family(assets: Seq<(Seq<char>, Seq<char>)>, macos: bool) -> Option<
    (Seq<char>, Seq<char>),
>
    decreases assets.len(),
{
    if assets.len() == 0 {
        None
    } else if asset_family(assets.last().0) == Some(macos) {
        Some(assets.last())
    } else {
        last_of_family(assets.drop_last(), macos)
    }
}

/// Whether the release record is well formed.
pub open spec fn release_valid(rel: (Seq<char>, Seq<(Seq<char>, Seq<char>)>)) -> bool {
    has_tag_prefix(rel.0) && is_version_text(tag_rest(rel.0)) && all_supported(rel.1)
        && last_of_family(rel.1, true) is Some && last_of_family(rel.1, false) is Some
}

/// Whether `c` is what the release record loads as.
pub open spec fn loads_as(
    rel: (Seq<char>, Seq<(Seq<char>, Seq<char>)>),
    c: (Version, (Seq<char>, Seq<char>), (Seq<char>, Seq<char>)),
) -> bool {
    release_valid(rel) && c.0.text() == tag_rest(rel.0) && last_of_family(rel.1, true) == Some(
        c.1,
    ) && last_of_family(rel.1, false) == Some(c.2)
}

/// Whether `e` is the error that loading the release record reports.
pub open spec fn fails_with(rel: (Seq<char>, Seq<(Seq<char>, Seq<char>)>), e: FormatError) -> bool {
    let tag = rel.0;
    let assets = rel.1;
    match e {
        FormatError::InvalidTag { tag: t } => t@ == tag && !has_tag_prefix(tag),
        FormatError::InvalidVersion { tag: t, reason: _ } => t@ == tag && has_tag_prefix(tag)
            && !is_version_text(tag_rest(tag)),
        FormatError::UnsupportedPlatform { tag: t, asset } => t@ == tag && has_tag_prefix(tag)
            && is_version_text(tag_rest(tag)) && exists|i: int|
            0 <= i < assets.len() && #[trigger] assets[i].0 == asset@ && asset_family(asset@) is None
                && all_supported(assets.take(i)),
        FormatError::MissingMacos { tag: t } => t@ == tag && has_tag_prefix(tag) && is_version_text(
            tag_rest(tag),
        ) && all_supported(assets) && last_of_family(assets, true) is None,
        FormatError::MissingLinux { tag: t } => t@ == tag && has_tag_prefix(tag) && is_version_text(
            tag_rest(tag),
        ) && all_supported(assets) && last_of_family(assets, true) is Some && last_of_family(
            assets,
            false,
        ) is None,
    }
}

/// Turns a release record into a compiler release: the tag is the prefix
/// followed by a version, and every asset is a macOS or a Linux artifact,
/// with at least one of each.
pub fn load_compiler_version(release: RawRelease) -> (r: Result<MidnightCompiler, FormatError>)
    ensures
        match r {
            Ok(c) => loads_as(release@, c@),
            Err(e) => !release_valid(release@) && fails_with(release@, e),
        },
{
    let ghost rel = release@;
    let RawRelease { tag_name, assets } = release;
    let ghost av = rel.1;
    assert(av.len() == assets@.len() && forall|i: int| 0 <= i < av.len() ==> av[i] == (
    #[trigger] assets@[i])@);
    proof {
        reveal_strlit("compactc-v");
    }
    let rest = match strip_prefix(tag_name.as_str(), RELEASE_TAG_PREFIX) {
        Some(rest) => rest,
        None => {
            return Err(FormatError::InvalidTag { tag: tag_name });
        },
    };
    assert(rest@ =~= tag_rest(tag_name@));
    assert(tag_name@.take(RELEASE_TAG_PREFIX@.len() as int) =~= RELEASE_TAG_PREFIX@);
    let version = match Version::parse(rest) {
        Ok(v) => v,
        Err(ParseError { text: _, reason }) => {
            return Err(FormatError::InvalidVersion { tag: tag_name, reason });
        },
    };
    let mut macos: Option<AssetRef> = None;
    let mut linux: Option<AssetRef> = None;
    let mut k: usize = 0;
    while k < assets.len()
        invariant
            k <= assets.len(),
            av == rel.1,
            rel == release@,
            tag_name@ == rel.0,
            has_tag_prefix(rel.0),
            is_version_text(tag_rest(rel.0)),
            version.text() == tag_rest(rel.0),
            av.len() == assets@.len(),
            forall|i: int| 0 <= i < av.len() ==> av[i] == (#[trigger] assets@[i])@,
            all_supported(av.take(k as int)),
            match macos {
                Some(a) => last_of_family(av.take(k as int), true) == Some(a@),
                None => last_of_family(av.take(k as int), true) is None,
            },
            match linux {
                Some(a) => last_of_family(av.take(k as int), false) == Some(a@),
                None => last_of_family(av.take(k as int), false) is None,
            },
        decreases assets.len() - k,
    {
        let asset = &assets[k];
        let ghost next = av.take(k + 1);
        assert(next.drop_last() =~= av.take(k as int));
        assert(av[k as int] == asset@);
        assert(next.last() == asset@);
        proof {
            reveal_strlit("apple-darwin");
            reveal_strlit("linux");
        }
        if contains(asset.name.as_str(), "apple-darwin") {
            assert(asset_family(next.last().0) == Some(true));
            let found = asset.duplicate();
            assert(last_of_family(next, true) == Some(found@));
            macos = Some(found);
            assert(last_of_family(next, false) == last_of_family(av.take(k as int), false));
        } else if contains(asset.name.as_str(), "linux") {
            assert(asset_family(next.last().0) == Some(false));
            linux = Some(asset.duplicate());
            assert(last_of_family(next, true) == last_of_family(av.take(k as int), true));
        } else {
            assert(av[k as int].0 == asset.name@);
            assert(asset_family(av[k as int].0) is None);
            let name = asset.name.clone();
            assert(name@ == av[k as int].0);
            assert(!all_supported(rel.1));
            let e = FormatError::UnsupportedPlatform { tag: tag_name, asset: name };
            assert(rel.1[k as int].0 == name@);
            return Err(e);
        }
        assert forall|i: int| 0 <= i < k + 1 implies (#[trigger] asset_family(
            av.take(k + 1)[i].0,
        )) is Some by {
            if i < k {
                assert(av.take(k + 1)[i] == av.take(k as int)[i]);
            }
        }
        k = k + 1;
    }
    assert(av.take(assets.len() as int) =~= av);
    let macos = match macos {
        Some(a) => a,
        None => {
            return Err(FormatError::MissingMacos { tag: tag_name });
        },
    };
    let linux = match linux {
        Some(a) => a,
        None => {
            return Err(FormatError::MissingLinux { tag: tag_name });
        },
    };
    Ok(MidnightCompiler { version, macos, linux })
}

/// What the catalogue holds of one release.
pub type CompilerView = (Version, (Seq<char>, Seq<char>), (Seq<char>, Seq<char>));

/// Whether the versions of `s` strictly increase.
pub open spec fn strictly_ascending(s: Seq<CompilerView>) -> bool {
    forall|i: int, j: int| 0 <= i < j < s.len() ==> (#[trigger] s[i]).0.older_than((#[trigger] s[j]).0)
}

/// Whether `v` satisfies the specifier, no specifier accepting every version.
pub open spec fn wanted(spec: Option<VersionSpec>, v: Version) -> bool {
    match spec {
        Some(s) => s.spec_matches(v),
        None => true,
    }
}

proof fn lemma_insert_sorted(before: Seq<CompilerView>, p: int, cv: CompilerView)
    requires
        strictly_ascending(before),
        0 <= p <= before.len(),
        forall|i: int| 0 <= i < p ==> (#[trigger] before[i]).0.older_than(cv.0),
        p < before.len() ==> cv.0.older_than(before[p].0),
    ensures
        strictly_ascending(before.insert(p, cv)),
{
    let after = before.insert(p, cv);
    assert forall|i: int, j: int| 0 <= i < j < after.len() implies (#[trigger] after[i]).0.older_than(
        (#[trigger] after[j]).0,
    ) by {
        if j < p {
            assert(after[i] == before[i] && after[j] == before[j]);
        } else if j == p {
            assert(after[i] == before[i]);
        } else if i < p {
            assert(after[i] == before[i] && after[j] == before[j - 1]);
            assert(before[i].0.older_than(cv.0));
            assert(cv.0.older_than(before[p].0));
            if j - 1 > p {
                assert(before[p].0.older_than(before[j - 1].0));
            }
        } else if i == p {
            assert(after[j] == before[j - 1]);
            if j - 1 > p {
                assert(before[p].0.older_than(before[j - 1].0));
            }
        } else {
            assert(after[i] == before[i - 1] && after[j] == before[j - 1]);
        }
    }
}

proof fn lemma_update_sorted(before: Seq<CompilerView>, p: int, cv: CompilerView)
    requires
        strictly_ascending(before),
        0 <= p < before.len(),
        before[p].0 == cv.0,
    ensures
        strictly_ascending(before.update(p, cv)),
{
    let after = before.update(p, cv);
    assert forall|i: int, j: int| 0 <= i < j < after.len() implies (#[trigger] after[i]).0.older_than(
        (#[trigger] after[j]).0,
    ) by {
        assert(before[i].0.older_than(before[j].0));
    }
}

proof fn lemma_remove_sorted(before: Seq<CompilerView>, p: int)
    requires
        strictly_ascending(before),
        0 <= p < before.len(),
    ensures
        strictly_ascending(before.remove(p)),
{
    let after = before.remove(p);
    assert forall|i: int, j: int| 0 <= i < j < after.len() implies (#[trigger] after[i]).0.older_than(
        (#[trigger] after[j]).0,
    ) by {
        let bi = if i < p { i } else { i + 1 };
        let bj = if j < p { j } else { j + 1 };
        assert(after[i] == before[bi] && after[j] == before[bj]);
        assert(before[bi].0.older_than(before[bj].0));
    }
}

/// In a strictly ascending catalogue a version stands at one place only.
proof fn lemma_unique_version(s: Seq<CompilerView>, i: int, j: int)
    requires
        strictly_ascending(s),
        0 <= i < s.len(),
        0 <= j < s.len(),
        s[i].0 == s[j].0,
    ensures
        i == j,
{
    if i < j {
        assert(s[i].0.older_than(s[j].0));
    } else if j < i {
        assert(s[j].0.older_than(s[i].0));
    }
}

/// What taking the newest release that satisfies `spec` out of `before`
/// gives: the release and the catalogue left, or an error when none does.
pub open spec fn selection(
    before: Seq<CompilerView>,
    after: Seq<CompilerView>,
    spec: Option<VersionSpec>,
    r: Result<(Version, MidnightCompiler), NotFoundError>,
) -> bool {
    match r {
        Ok((v, c)) => v == c.version && wanted(spec, v) && exists|i: int|
            0 <= i < before.len() && #[trigger] before[i] == c@ && after == before.remove(i)
                && forall|j: int|
                0 <= j < before.len() && wanted(spec, (#[trigger] before[j]).0) ==> before[j].0.at_most(
                    v,
                ),
        Err(e) => e.requested == spec && after == before && forall|j: int|
            0 <= j < before.len() ==> !wanted(spec, (#[trigger] before[j]).0),
    }
}

/// The known releases, one per version, ordered by version.
#[derive(Debug, Clone)]
pub struct MidnightArtifacts {
    compilers: Vec<MidnightCompiler>,
}

/// No release in the catalogue satisfies the request.
#[derive(Debug, Clone, Copy, PartialEq, Eq)]
pub struct NotFoundError {
    pub requested: Option<VersionSpec>,
}

impl View for MidnightArtifacts {
    type V = Seq<CompilerView>;

    closed spec fn view(&self) -> Seq<CompilerView> {
        self.compilers@.map_values(|c: MidnightCompiler| c@)
    }
}

/// The views of a list of release records.
pub open spec fn release_views(s: Seq<RawRelease>) -> Seq<(Seq<char>, Seq<(Seq<char>, Seq<char>)>)> {
    s.map_values(|x: RawRelease| x@)
}

/// Whether `c` is the release that a list of release records gives for its
/// version: some record loads as `c`, and no later record has that version.
pub open spec fn last_release_for(
    rels: Seq<(Seq<char>, Seq<(Seq<char>, Seq<char>)>)>,
    c: CompilerView,
) -> bool {
    exists|i: int|
        0 <= i < rels.len() && loads_as(#[trigger] rels[i], c) && forall|k: int|
            i < k < rels.len() ==> tag_rest((#[trigger] rels[k]).0) != c.0.text()
}

/// What the catalogue holds after loading the first `n` records.
pub open spec fn catalogue_of(
    cat: Seq<CompilerView>,
    rels: Seq<(Seq<char>, Seq<(Seq<char>, Seq<char>)>)>,
    n: int,
) -> bool {
    &&& strictly_ascending(cat)
    &&& forall|i: int| 0 <= i < n ==> release_valid(#[trigger] rels[i])
    &&& forall|i: int|
        0 <= i < n ==> exists|j: int|
            0 <= j < cat.len() && (#[trigger] cat[j]).0.text() == tag_rest((#[trigger] rels[i]).0)
    &&& forall|j: int| 0 <= j < cat.len() ==> last_release_for(rels.take(n), #[trigger] cat[j])
}

proof fn lemma_catalogue_step_present(
    before: Seq<CompilerView>,
    after: Seq<CompilerView>,
    cv: CompilerView,
    rels: Seq<(Seq<char>, Seq<(Seq<char>, Seq<char>)>)>,
    done: int,
)
    requires
        0 <= done < rels.len(),
        catalogue_of(before, rels, done),
        loads_as(rels[done], cv),
        strictly_ascending(after),
        exists|i: int| 0 <= i < after.len() && #[trigger] after[i] == cv,
        forall|i: int|
            0 <= i < before.len() && (#[trigger] before[i]).0 != cv.0 ==> exists|j: int|
                0 <= j < after.len() && #[trigger] after[j] == before[i],
        forall|j: int|
            0 <= j < after.len() && (#[trigger] after[j]).0 != cv.0 ==> exists|i: int|
                0 <= i < before.len() && #[trigger] before[i] == after[j],
    ensures
        forall|i: int|
            0 <= i < done + 1 ==> exists|j: int|
                0 <= j < after.len() && (#[trigger] after[j]).0.text() == tag_rest(
                    (#[trigger] rels[i]).0,
                ),
{
    let jn = choose|j: int| 0 <= j < after.len() && #[trigger] after[j] == cv;
    assert forall|i: int|
        0 <= i < done + 1 implies exists|j: int|
        0 <= j < after.len() && (#[trigger] after[j]).0.text() == tag_rest((#[trigger] rels[i]).0) by {
        if i < done {
            let j0 = choose|j: int|
                0 <= j < before.len() && (#[trigger] before[j]).0.text() == tag_rest(rels[i].0);
            if before[j0].0 != cv.0 {
                let j1 = choose|j: int| 0 <= j < after.len() && #[trigger] after[j] == before[j0];
                assert(after[j1].0.text() == tag_rest(rels[i].0));
            } else {
                assert(after[jn].0.text() == tag_rest(rels[i].0));
            }
        } else {
            assert(after[jn].0.text() == tag_rest(rels[i].0));
        }
    }
}

proof fn lemma_catalogue_step_last(
    before: Seq<CompilerView>,
    after: Seq<CompilerView>,
    cv: CompilerView,
    rels: Seq<(Seq<char>, Seq<(Seq<char>, Seq<char>)>)>,
    done: int,
    j: int,
)
    requires
        0 <= done < rels.len(),
        catalogue_of(before, rels, done),
        loads_as(rels[done], cv),
        strictly_ascending(after),
        exists|i: int| 0 <= i < after.len() && #[trigger] after[i] == cv,
        forall|i: int|
            0 <= i < before.len() && (#[trigger] before[i]).0 != cv.0 ==> exists|j: int|
                0 <= j < after.len() && #[trigger] after[j] == before[i],
        forall|j: int|
            0 <= j < after.len() && (#[trigger] after[j]).0 != cv.0 ==> exists|i: int|
                0 <= i < before.len() && #[trigger] before[i] == after[j],
        0 <= j < after.len(),
    ensures
        last_release_for(rels.take(done + 1), after[j]),
{
    let jn = choose|j: int| 0 <= j < after.len() && #[trigger] after[j] == cv;
    let rs = rels.take(done + 1);
    let r0 = rels.take(done);
    if after[j].0 == cv.0 {
        lemma_unique_version(after, j, jn);
        assert(rs[done] == rels[done]);
        assert(loads_as(rs[done], after[j]));
    } else {
        let i0 = choose|i: int| 0 <= i < before.len() && #[trigger] before[i] == after[j];
        assert(last_release_for(r0, before[i0]));
        let w = choose|i: int|
            0 <= i < r0.len() && loads_as(#[trigger] r0[i], before[i0]) && forall|k: int|
                i < k < r0.len() ==> tag_rest((#[trigger] r0[k]).0) != before[i0].0.text();
        assert(rs[w] == r0[w]);
        assert forall|k: int| w < k < rs.len() implies tag_rest((#[trigger] rs[k]).0)
            != after[j].0.text() by {
            if k < done {
                assert(rs[k] == r0[k]);
            } else if tag_rest(rs[k].0) == after[j].0.text() {
                lemma_version_text_injective(cv.0, after[j].0);
            }
        }
        assert(loads_as(rs[w], after[j]));
    }
}

proof fn lemma_catalogue_step(
    before: Seq<CompilerView>,
    after: Seq<CompilerView>,
    cv: CompilerView,
    rels: Seq<(Seq<char>, Seq<(Seq<char>, Seq<char>)>)>,
    done: int,
)
    requires
        0 <= done < rels.len(),
        catalogue_of(before, rels, done),
        loads_as(rels[done], cv),
        strictly_ascending(after),
        exists|i: int| 0 <= i < after.len() && #[trigger] after[i] == cv,
        forall|i: int|
            0 <= i < before.len() && (#[trigger] before[i]).0 != cv.0 ==> exists|j: int|
                0 <= j < after.len() && #[trigger] after[j] == before[i],
        forall|j: int|
            0 <= j < after.len() && (#[trigger] after[j]).0 != cv.0 ==> exists|i: int|
                0 <= i < before.len() && #[trigger] before[i] == after[j],
    ensures
        catalogue_of(after, rels, done + 1),
{
    lemma_catalogue_step_present(before, after, cv, rels, done);
    assert forall|j: int| 0 <= j < after.len() implies last_release_for(
        rels.take(done + 1),
        #[trigger] after[j],
    ) by {
        lemma_catalogue_step_last(before, after, cv, rels, done, j);
    }
}

impl MidnightArtifacts {
    pub open spec fn wf(&self) -> bool {
        strictly_ascending(self@)
    }

    /// An empty catalogue.
    pub fn new() -> (r: MidnightArtifacts)
        ensures
            r@.len() == 0,
            r.wf(),
    {
        let r = MidnightArtifacts { compilers: Vec::new() };
        assert(r@ =~= Seq::<CompilerView>::empty());
        r
    }

    pub fn len(&self) -> (r: usize)
        ensures
            r == self@.len(),
    {
        self.compilers.len()
    }

    /// The versions of the catalogue, oldest first.
    pub fn versions(&self) -> (r: Vec<Version>)
        ensures
            r@.len() == self@.len(),
            forall|i: int| 0 <= i < r@.len() ==> r@[i] == (#[trigger] self@[i]).0,
    {
        let mut out: Vec<Version> = Vec::new();
        let mut k: usize = 0;
        while k < self.compilers.len()
            invariant
                k <= self@.len(),
                out@.len() == k,
                forall|i: int| 0 <= i < k ==> out@[i] == (#[trigger] self@[i]).0,
            decreases self@.len() - k,
        {
            out.push(self.compilers[k].version);
            k = k + 1;
        }
        out
    }

    /// Adds a release; one already held with the same version is replaced.
    pub fn insert(&mut self, c: MidnightCompiler)
        requires
            old(self).wf(),
        ensures
            final(self).wf(),
            exists|i: int| 0 <= i < final(self)@.len() && #[trigger] final(self)@[i] == c@,
            forall|i: int|
                0 <= i < old(self)@.len() && (#[trigger] old(self)@[i]).0 != c.version ==> exists|
                    j: int,
                | 0 <= j < final(self)@.len() && #[trigger] final(self)@[j] == old(self)@[i],
            forall|j: int|
                0 <= j < final(self)@.len() && (#[trigger] final(self)@[j]).0 != c.version ==> exists|
                    i: int,
                | 0 <= i < old(self)@.len() && #[trigger] old(self)@[i] == final(self)@[j],
    {
        let ghost before = self@;
        let mut p: usize = 0;
        while p < self.compilers.len() && self.compilers[p].version.precedes(&c.version)
            invariant
                p <= self@.len(),
                self@ == before,
                forall|i: int| 0 <= i < p ==> (#[trigger] self@[i]).0.older_than(c.version),
            decreases self@.len() - p,
        {
            p = p + 1;
        }
        let ghost cv = c@;
        if p < self.compilers.len() && self.compilers[p].version == c.version {
            self.compilers.set(p, c);
            assert(self@ =~= before.update(p as int, cv));
            proof {
                lemma_update_sorted(before, p as int, cv);
            }
            assert(self@[p as int] == cv);
            assert forall|i: int|
                0 <= i < before.len() && (#[trigger] before[i]).0 != cv.0 implies exists|j: int|
                0 <= j < self@.len() && #[trigger] self@[j] == before[i] by {
                assert(self@[i] == before[i]);
            }
            assert forall|j: int|
                0 <= j < self@.len() && (#[trigger] self@[j]).0 != cv.0 implies exists|i: int|
                0 <= i < before.len() && #[trigger] before[i] == self@[j] by {
                assert(self@[j] == before[j]);
            }
        } else {
            self.compilers.insert(p, c);
            assert(self@ =~= before.insert(p as int, cv));
            proof {
                lemma_insert_sorted(before, p as int, cv);
            }
            assert(self@[p as int] == cv);
            assert forall|i: int|
                0 <= i < before.len() && (#[trigger] before[i]).0 != cv.0 implies exists|j: int|
                0 <= j < self@.len() && #[trigger] self@[j] == before[i] by {
                if i < p {
                    assert(self@[i] == before[i]);
                } else {
                    assert(self@[i + 1] == before[i]);
                }
            }
            assert forall|j: int|
                0 <= j < self@.len() && (#[trigger] self@[j]).0 != cv.0 implies exists|i: int|
                0 <= i < before.len() && #[trigger] before[i] == self@[j] by {
                if j < p {
                    assert(self@[j] == before[j]);
                } else {
                    assert(self@[j] == before[j - 1]);
                }
            }
        }
    }

    /// Takes out the newest release that satisfies the specifier (the newest
    /// of all when there is none).
    pub fn select(&mut self, spec: Option<VersionSpec>) -> (r: Result<
        (Version, MidnightCompiler),
        NotFoundError,
    >)
        requires
            old(self).wf(),
        ensures
            final(self).wf(),
            selection(old(self)@, final(self)@, spec, r),
    {
        let ghost before = self@;
        let mut k: usize = self.compilers.len();
        while k > 0
            invariant
                k <= self@.len(),
                self@ == before,
                before == old(self)@,
                strictly_ascending(before),
                forall|j: int| k <= j < self@.len() ==> !wanted(spec, (#[trigger] self@[j]).0),
            decreases k,
        {
            let hit = match &spec {
                Some(s) => s.matches(&self.compilers[k - 1].version),
                None => true,
            };
            if hit {
                let c = self.compilers.remove(k - 1);
                let v = c.version;
                assert(self@ =~= before.remove(k - 1));
                proof {
                    lemma_remove_sorted(before, k - 1);
                }
                assert forall|j: int|
                    0 <= j < before.len() && wanted(spec, (#[trigger] before[j]).0) implies before[j].0.at_most(
                    v,
                ) by {
                    if j < k - 1 {
                        assert(before[j].0.older_than(before[k - 1].0));
                    }
                }
                assert(before[k - 1] == c@);
                assert(wanted(spec, v));
                assert(self@ == before.remove(k - 1));
                return Ok((v, c));
            }
            k = k - 1;
        }
        Err(NotFoundError { requested: spec })
    }

    /// Builds the catalogue from the release source's records; the first
    /// malformed record fails the whole load.
    pub fn from_releases(releases: Vec<RawRelease>) -> (r: Result<MidnightArtifacts, FormatError>)
        ensures
            match r {
                Ok(cat) => catalogue_of(cat@, release_views(releases@), releases@.len() as int),
                Err(e) => exists|i: int|
                    0 <= i < releases@.len() && fails_with((#[trigger] releases@[i])@, e) && forall|
                        k: int,
                    | 0 <= k < i ==> release_valid((#[trigger] releases@[k])@),
            },
    {
        let ghost all = releases@;
        let ghost rels = release_views(all);
        let mut cat = MidnightArtifacts::new();
        let mut pending = releases;
        let mut done: usize = 0;
        let n = pending.len();
        while pending.len() > 0
            invariant
                all == releases@,
                n == all.len(),
                rels == release_views(all),
                all.len() == done + pending@.len(),
                forall|i: int| 0 <= i < pending@.len() ==> #[trigger] pending@[i] == all[done + i],
                catalogue_of(cat@, rels, done as int),
            decreases pending@.len(),
        {
            let rel = pending.remove(0);
            assert(rel == all[done as int]);
            assert(rels[done as int] == rel@);
            let ghost before = cat@;
            match load_compiler_version(rel) {
                Ok(c) => {
                    let ghost cv = c@;
                    cat.insert(c);
                    proof {
                        lemma_catalogue_step(before, cat@, cv, rels, done as int);
                    }
                },
                Err(e) => {
                    assert forall|k: int| 0 <= k < done implies release_valid((#[trigger] all[k])@) by {
                        assert(rels[k] == all[k]@);
                    }
                    return Err(e);
                },
            }
            done = done + 1;
        }
        assert(rels.take(done as int) =~= rels);
        Ok(cat)
    }
}

/// Selecting with no specifier from a non-empty catalogue succeeds, with
/// the newest version of the catalogue.
pub proof fn law_select_newest(
    before: Seq<CompilerView>,
    after: Seq<CompilerView>,
    r: Result<(Version, MidnightCompiler), NotFoundError>,
)
    requires
        strictly_ascending(before),
        before.len() > 0,
        selection(before, after, None, r),
    ensures
        r matches Ok((v, _)) && v == before.last().0 && forall|j: int|
            0 <= j < before.len() ==> (#[trigger] before[j]).0.at_most(v),
{
    assert(wanted(None, before[0].0));
    if let Ok((v, c)) = r {
        let i = choose|i: int| 0 <= i < before.len() && #[trigger] before[i] == c@ && after
            == before.remove(i) && forall|j: int|
            0 <= j < before.len() && wanted(None, (#[trigger] before[j]).0) ==> before[j].0.at_most(v);
        let l = before.len() - 1;
        assert(wanted(None, before[l].0));
        if i < l {
            assert(before[i].0.older_than(before[l].0));
        }
    }
}

/// Selecting from an empty catalogue fails with the request, whatever it is.
pub proof fn law_select_empty(
    after: Seq<CompilerView>,
    spec: Option<VersionSpec>,
    r: Result<(Version, MidnightCompiler), NotFoundError>,
)
    requires
        selection(Seq::empty(), after, spec, r),
    ensures
        r matches Err(e) && e.requested == spec,
{
}

/// Among the patches 0, 2 and 5 of `major.minor`, the partial specifier
/// `major.minor` selects patch 5.
pub proof fn law_select_highest_patch(
    before: Seq<CompilerView>,
    after: Seq<CompilerView>,
    major: u64,
    minor: u64,
    r: Result<(Version, MidnightCompiler), NotFoundError>,
)
    requires
        strictly_ascending(before),
        before.len() == 3,
        before[0].0 == (Version { major, minor, patch: 0 }),
        before[1].0 == (Version { major, minor, patch: 2 }),
        before[2].0 == (Version { major, minor, patch: 5 }),
        selection(before, after, Some(VersionSpec::Partial(major, minor)), r),
    ensures
        r matches Ok((v, _)) && v == (Version { major, minor, patch: 5 }),
{
    let spec = Some(VersionSpec::Partial(major, minor));
    assert(wanted(spec, before[2].0));
    if let Ok((v, c)) = r {
        assert(before[2].0.at_most(v));
    }
}

} // verus!
