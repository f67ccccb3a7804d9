//! Build selection: picks the single best build of a concrete version
//! under the stability tie-break policy, and the download it must offer.

use vstd::prelude::*;
use crate::error::Error;
use crate::text::str_eq;

verus! {

/// One downloadable artifact of a build: a display name, the advertised
/// checksum (surfaced, not verified), and the source URL.
pub struct DownloadDescriptor {
    pub name: String,
    pub sha256: String,
    pub url: String,
}

/// One download kind a build offers (e.g. the default server archive).
pub struct DownloadEntry {
    pub kind: String,
    pub download: DownloadDescriptor,
}

/// One published build of a concrete version: a numeric identifier, a
/// stability channel, and the downloads it offers by kind.
pub struct BuildDescriptor {
    pub id: u64,
    pub channel: String,
    pub downloads: Vec<DownloadEntry>,
}

/// The channel a build must carry to be preferred by selection.
pub open spec fn stable_channel() -> Seq<char> {
    "STABLE"@
}

pub open spec fn is_stable(b: BuildDescriptor) -> bool {
    b.channel@ == stable_channel()
}

pub open spec fn has_stable(builds: Seq<BuildDescriptor>) -> bool {
    exists|i: int| 0 <= i < builds.len() && is_stable(#[trigger] builds[i])
}

/// `i` is the position selection lands on within its class (the stable
/// builds when `stable_only`, otherwise all builds): every class member has
/// a smaller identifier, or the same identifier and an earlier position.
pub open spec fn selected_in_class(builds: Seq<BuildDescriptor>, i: int, stable_only: bool) -> bool {
    &&& 0 <= i < builds.len()
    &&& (stable_only ==> is_stable(builds[i]))
    &&& forall|j: int|
        0 <= j < builds.len() && (stable_only ==> is_stable(#[trigger] builds[j])) ==> builds[j].id
            < builds[i].id || (builds[j].id == builds[i].id && j <= i)
}

impl BuildDescriptor {
    /// Download kinds are unique within one build.
    pub open spec fn wf(self) -> bool {
        forall|i: int, j: int|
            0 <= i < j < self.downloads@.len() ==> #[trigger] self.downloads@[i].kind@
                != #[trigger] self.downloads@[j].kind@
    }

    /// Whether the build offers download kind `k`.
    pub open spec fn has_kind(self, k: Seq<char>) -> bool {
        exists|i: int| 0 <= i < self.downloads@.len() && #[trigger] self.downloads@[i].kind@ == k
    }

    /// Looks up the download of kind `kind`; fails with `MissingAsset` when
    /// the build does not offer that kind.
    pub fn select_download(&self, kind: &str) -> (r: Result<&DownloadDescriptor, Error>)
        requires
            self.wf(),
        ensures
            match r {
                Ok(d) => self.has_kind(kind@) && forall|i: int|
                    0 <= i < self.downloads@.len() && #[trigger] self.downloads@[i].kind@ == kind@
                        ==> *d == self.downloads@[i].download,
                Err(e) => e == Error::MissingAsset && !self.has_kind(kind@),
            },
    {
        let n = self.downloads.len();
        let mut i: usize = 0;
        while i < n
            invariant
                i <= n,
                n == self.downloads@.len(),
                self.wf(),
                forall|j: int| 0 <= j < i ==> #[trigger] self.downloads@[j].kind@ != kind@,
            decreases n - i,
        {
            let entry: &DownloadEntry = &self.downloads[i];
            if str_eq(entry.kind.as_str(), kind) {
                return Ok(&entry.download);
            }
            i = i + 1;
        }
        Err(Error::MissingAsset)
    }
}

/// Picks the best build: the highest identifier among stable builds, or the
/// highest identifier overall when no build is stable; later positions win
/// ties. `None` only when there are no builds at all.
pub fn pick_best_build(builds: &Vec<BuildDescriptor>) -> (r: Option<&BuildDescriptor>)
    ensures
        match r {
            Some(b) => exists|i: int|
                #[trigger] selected_in_class(builds@, i, has_stable(builds@)) && *b == builds@[i],
            None => builds@.len() == 0,
        },
{
    let n = builds.len();
    let mut best: usize = 0;
    let mut found = false;
    let mut i: usize = 0;
    while i < n
        invariant
            i <= n,
            n == builds@.len(),
            !found ==> forall|j: int| 0 <= j < i ==> !is_stable(#[trigger] builds@[j]),
            found ==> best < i && is_stable(builds@[best as int]),
            found ==> forall|j: int|
                0 <= j < i && is_stable(#[trigger] builds@[j]) ==> builds@[j].id
                    < builds@[best as int].id || (builds@[j].id == builds@[best as int].id && j
                    <= best as int),
        decreases n - i,
    {
        if str_eq(builds[i].channel.as_str(), "STABLE") {
            proof {
                reveal_strlit("STABLE");
            }
            if !found || builds[i].id >= builds[best].id {
                best = i;
                found = true;
            }
        }
        i = i + 1;
    }
    if found {
        proof {
            assert(selected_in_class(builds@, best as int, true));
            assert(has_stable(builds@));
        }
        return Some(&builds[best]);
    }
    if n == 0 {
        return None;
    }
    proof {
        assert(!has_stable(builds@));
    }
    let mut best: usize = 0;
    let mut i: usize = 1;
    while i < n
        invariant
            best < i <= n,
            n == builds@.len(),
            forall|j: int|
                0 <= j < i ==> #[trigger] builds@[j].id < builds@[best as int].id || (builds@[j].id
                    == builds@[best as int].id && j <= best as int),
        decreases n - i,
    {
        if builds[i].id >= builds[best].id {
            best = i;
        }
        i = i + 1;
    }
    proof {
        assert(selected_in_class(builds@, best as int, false));
    }
    Some(&builds[best])
}

/// The build-selector contract: fails with `NotFound` when the version has
/// no builds; otherwise picks the best build and its download of the
/// required `kind`, failing with `MissingAsset` when the kind is absent.
pub fn select_build<'a>(builds: &'a Vec<BuildDescriptor>, kind: &str) -> (r: Result<
    (&'a BuildDescriptor, &'a DownloadDescriptor),
    Error,
>)
    requires
        forall|i: int| 0 <= i < builds@.len() ==> #[trigger] builds@[i].wf(),
    ensures
        builds@.len() == 0 ==> r == Err::<(&'a BuildDescriptor, &'a DownloadDescriptor), Error>(
            Error::NotFound,
        ),
        forall|i: int|
            #[trigger] selected_in_class(builds@, i, has_stable(builds@)) ==> {
                let b = builds@[i];
                if b.has_kind(kind@) {
                    r matches Ok((rb, rd)) && *rb == b && forall|j: int|
                        0 <= j < b.downloads@.len() && #[trigger] b.downloads@[j].kind@ == kind@
                            ==> *rd == b.downloads@[j].download
                } else {
                    r == Err::<(&'a BuildDescriptor, &'a DownloadDescriptor), Error>(
                        Error::MissingAsset,
                    )
                }
            },
{
    if builds.len() == 0 {
        return Err(Error::NotFound);
    }
    let best = match pick_best_build(builds) {
        Some(b) => b,
        None => {
            return Err(Error::NotFound);
        },
    };
    proof {
        // Two positions selected in the same class carry the same build.
        assert forall|i: int, j: int|
            selected_in_class(builds@, i, has_stable(builds@)) && selected_in_class(
                builds@,
                j,
                has_stable(builds@),
            ) implies i == j by {}
    }
    match best.select_download(kind) {
        Ok(d) => Ok((best, d)),
        Err(e) => Err(e),
    }
}

// --- Fabric loader/installer combinations --------------------------------------

/// One Fabric loader/installer combination published for a game version.
/// The stability flags are optional in the metadata; an absent flag counts
/// as stable.
pub struct LoaderCombo {
    pub loader_version: String,
    pub loader_stable: Option<bool>,
    pub installer_version: String,
    pub installer_stable: Option<bool>,
}

/// Preferred: neither part is explicitly marked unstable.
pub open spec fn combo_preferred(c: LoaderCombo) -> bool {
    c.loader_stable != Some(false) && c.installer_stable != Some(false)
}

pub open spec fn first_preferred_combo(cs: Seq<LoaderCombo>) -> Option<LoaderCombo>
    decreases cs.len(),
{
    if cs.len() == 0 {
        None
    } else if combo_preferred(cs[0]) {
        Some(cs[0])
    } else {
        first_preferred_combo(cs.drop_first())
    }
}

/// The combination picked: the first one whose parts are both stable, or the
/// first combination when none qualifies.
pub open spec fn best_combo(cs: Seq<LoaderCombo>) -> Option<LoaderCombo> {
    match first_preferred_combo(cs) {
        Some(c) => Some(c),
        None => if cs.len() > 0 {
            Some(cs[0])
        } else {
            None
        },
    }
}

proof fn lemma_first_preferred_at(cs: Seq<LoaderCombo>, i: int)
    requires
        0 <= i < cs.len(),
        forall|j: int| 0 <= j < i ==> !combo_preferred(#[trigger] cs[j]),
        combo_preferred(cs[i]),
    ensures
        first_preferred_combo(cs) == Some(cs[i]),
    decreases i,
{
    if i > 0 {
        lemma_first_preferred_at(cs.drop_first(), i - 1);
    }
}

proof fn lemma_no_preferred(cs: Seq<LoaderCombo>)
    requires
        forall|j: int| 0 <= j < cs.len() ==> !combo_preferred(#[trigger] cs[j]),
    ensures
        first_preferred_combo(cs) is None,
    decreases cs.len(),
{
    if cs.len() > 0 {
        lemma_no_preferred(cs.drop_first());
    }
}

/// Picks the loader/installer combination to install for a game version.
pub fn pick_best_loader_combo(combos: &Vec<LoaderCombo>) -> (r: Option<&LoaderCombo>)
    ensures
        match r {
            Some(c) => best_combo(combos@) == Some(*c),
            None => combos@.len() == 0,
        },
{
    let n = combos.len();
    let mut i: usize = 0;
    while i < n
        invariant
            i <= n,
            n == combos@.len(),
            forall|j: int| 0 <= j < i ==> !combo_preferred(#[trigger] combos@[j]),
        decreases n - i,
    {
        let c: &LoaderCombo = &combos[i];
        let loader_ok = match c.loader_stable {
            Some(f) => f,
            None => true,
        };
        let installer_ok = match c.installer_stable {
            Some(f) => f,
            None => true,
        };
        if loader_ok && installer_ok {
            proof {
                lemma_first_preferred_at(combos@, i as int);
            }
            return Some(c);
        }
        i = i + 1;
    }
    proof {
        lemma_no_preferred(combos@);
    }
    if n > 0 {
        Some(&combos[0])
    } else {
        None
    }
}

// --- the URLs the pipeline fetches ---------------------------------------------

/// The endpoint serving the version-family index.
pub fn paper_index_url() -> (r: &'static str)
    ensures
        r@ == "https://fill.papermc.io/v3/projects/paper"@,
{
    "https://fill.papermc.io/v3/projects/paper"
}

/// The endpoint listing the builds of one concrete version.
pub fn paper_builds_url(version: &str) -> (r: String)
    ensures
        r@ == "https://fill.papermc.io/v3/projects/paper/versions/"@ + version@ + "/builds"@,
{
    let mut s = ("https://fill.papermc.io/v3/projects/paper/versions/").to_owned();
    s.append(version);
    s.append("/builds");
    proof {
        assert(s@ =~= "https://fill.papermc.io/v3/projects/paper/versions/"@ + version@
            + "/builds"@);
    }
    s
}

/// The required download kind of a selected build.
pub fn server_default_kind() -> (r: &'static str)
    ensures
        r@ == "server:default"@,
{
    "server:default"
}

/// The endpoint listing Fabric loader/installer combinations for a version.
pub fn fabric_loader_url(version: &str) -> (r: String)
    ensures
        r@ == "https://meta.fabricmc.net/v2/versions/loader/"@ + version@,
{
    let mut s = ("https://meta.fabricmc.net/v2/versions/loader/").to_owned();
    s.append(version);
    s
}

/// The endpoint serving the Fabric server archive for a picked combination.
pub fn fabric_server_jar_url(version: &str, loader: &str, installer: &str) -> (r: String)
    ensures
        r@ == "https://meta.fabricmc.net/v2/versions/loader/"@ + version@ + "/"@ + loader@ + "/"@
            + installer@ + "/server/jar"@,
{
    let mut s = ("https://meta.fabricmc.net/v2/versions/loader/").to_owned();
    s.append(version);
    s.append("/");
    s.append(loader);
    s.append("/");
    s.append(installer);
    s.append("/server/jar");
    proof {
        assert(s@ =~= "https://meta.fabricmc.net/v2/versions/loader/"@ + version@ + "/"@ + loader@
            + "/"@ + installer@ + "/server/jar"@);
    }
    s
}

} // verus!
