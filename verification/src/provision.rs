//! The provisioning transaction: name validation, the commit-or-rollback
//! scope guard, and the transaction itself, run against a model of the
//! target store so that the all-or-nothing guarantee is provable for every
//! injected failure.

use vstd::prelude::*;
use vstd::string::*;
use crate::config::{eula_content, eula_content_spec, server_properties_content, server_properties_spec};
use crate::error::Error;
use crate::text::{
    contains_seq, contains_sub, eq_lower, lower_seq, str_eq, trim_bounds, trim_spec,
};

verus! {

// --- name validation ----------------------------------------------------------

/// Characters a target name may not contain.
pub open spec fn forbidden_char(c: char) -> bool {
    c == '<' || c == '>' || c == ':' || c == '"' || c == '/' || c == '\\' || c == '|' || c == '?'
        || c == '*'
}

/// A valid target name: not blank, free of forbidden characters, and free of
/// the path-traversal segment `".."`.
pub open spec fn valid_name(s: Seq<char>) -> bool {
    &&& trim_spec(s).len() > 0
    &&& forall|i: int| 0 <= i < s.len() ==> !forbidden_char(#[trigger] s[i])
    &&& !contains_seq(s, seq!['.', '.'])
}

/// Validates a caller-chosen target name before anything touches disk.
pub fn validate_server_name(name: &str) -> (r: Result<(), Error>)
    ensures
        valid_name(name@) ==> r == Ok::<(), Error>(()),
        !valid_name(name@) ==> r == Err::<(), Error>(Error::InvalidName),
{
    let bounds = trim_bounds(name);
    if bounds.0 == bounds.1 {
        return Err(Error::InvalidName);
    }
    let n = name.unicode_len();
    let mut i: usize = 0;
    while i < n
        invariant
            i <= n,
            n == name@.len(),
            forall|j: int| 0 <= j < i ==> !forbidden_char(#[trigger] name@[j]),
        decreases n - i,
    {
        let c = name.get_char(i);
        if c == '<' || c == '>' || c == ':' || c == '"' || c == '/' || c == '\\' || c == '|' || c
            == '?' || c == '*' {
            return Err(Error::InvalidName);
        }
        i = i + 1;
    }
    proof {
        reveal_strlit("..");
        assert(".."@ =~= seq!['.', '.']);
    }
    if contains_sub(name, "..") {
        return Err(Error::InvalidName);
    }
    Ok(())
}

// --- the server type ------------------------------------------------------------

/// The kind of server artifact a provisioning task installs.
#[derive(Clone, Copy, Debug, PartialEq, Eq, Structural)]
pub enum ServerType {
    Paper,
    Fabric,
}

pub open spec fn server_type_str(t: ServerType) -> Seq<char> {
    match t {
        ServerType::Paper => "paper"@,
        ServerType::Fabric => "fabric"@,
    }
}

impl ServerType {
    pub fn as_str(self) -> (r: &'static str)
        ensures
            r@ == server_type_str(self),
    {
        match self {
            ServerType::Paper => "paper",
            ServerType::Fabric => "fabric",
        }
    }
}

/// Parses a server type, case-insensitively.
pub fn parse_server_type(s: &str) -> (r: Option<ServerType>)
    ensures
        lower_seq(s@) == "paper"@ ==> r == Some(ServerType::Paper),
        lower_seq(s@) == "fabric"@ ==> r == Some(ServerType::Fabric),
        lower_seq(s@) != "paper"@ && lower_seq(s@) != "fabric"@ ==> r is None,
{
    proof {
        reveal_strlit("paper");
        reveal_strlit("fabric");
        assert("paper"@.len() == 5);
        assert("fabric"@.len() == 6);
    }
    if eq_lower(s, "paper") {
        Some(ServerType::Paper)
    } else if eq_lower(s, "fabric") {
        Some(ServerType::Fabric)
    } else {
        None
    }
}

// --- the scope guard -------------------------------------------------------------

/// A scope guard for one target directory: the directory must be removed on
/// every exit path unless the transaction explicitly committed.
pub struct DirGuard {
    pub path: String,
    pub committed: bool,
}

impl DirGuard {
    pub fn new(path: String) -> (g: Self)
        ensures
            g.path == path,
            !g.committed,
    {
        DirGuard { path, committed: false }
    }

    /// Signals success: the directory is kept.
    pub fn commit(&mut self)
        ensures
            final(self).committed,
            final(self).path == old(self).path,
    {
        self.committed = true;
    }

    /// Whether the guarded directory must be removed now.
    pub fn needs_rollback(&self) -> (b: bool)
        ensures
            b == !self.committed,
    {
        !self.committed
    }
}

// --- the target store model --------------------------------------------------------

/// One file of a provisioning target.
pub struct StoredFile {
    pub name: String,
    pub content: String,
}

/// One provisioning target: a directory keyed by a caller-chosen name,
/// holding the files written into it.
pub struct TargetDir {
    pub name: String,
    pub files: Vec<StoredFile>,
}

impl TargetDir {
    pub open spec fn files_wf(self) -> bool {
        forall|i: int, j: int|
            0 <= i < j < self.files@.len() ==> #[trigger] self.files@[i].name@ != #[trigger] self.files@[j].name@
    }

    /// The files of the target as a mapping from file name to content.
    pub open spec fn files_view(self) -> Map<Seq<char>, Seq<char>> {
        Map::new(
            |k: Seq<char>|
                exists|i: int| 0 <= i < self.files@.len() && #[trigger] self.files@[i].name@ == k,
            |k: Seq<char>|
                {
                    let i = choose|i: int|
                        0 <= i < self.files@.len() && #[trigger] self.files@[i].name@ == k;
                    self.files@[i].content@
                },
        )
    }
}

proof fn lemma_file_at(d: TargetDir, i: int)
    requires
        d.files_wf(),
        0 <= i < d.files@.len(),
    ensures
        d.files_view().contains_key(d.files@[i].name@),
        d.files_view()[d.files@[i].name@] == d.files@[i].content@,
{
    let k = d.files@[i].name@;
    let w = choose|w: int| 0 <= w < d.files@.len() && #[trigger] d.files@[w].name@ == k;
    assert(w == i);
}

/// The store of provisioning targets the transaction runs against: which
/// target directories exist, and the files each holds.
pub struct TargetStore {
    pub dirs: Vec<TargetDir>,
}

impl View for TargetStore {
    type V = Map<Seq<char>, Map<Seq<char>, Seq<char>>>;

    open spec fn view(&self) -> Map<Seq<char>, Map<Seq<char>, Seq<char>>> {
        Map::new(
            |k: Seq<char>|
                exists|i: int| 0 <= i < self.dirs@.len() && #[trigger] self.dirs@[i].name@ == k,
            |k: Seq<char>|
                {
                    let i = choose|i: int|
                        0 <= i < self.dirs@.len() && #[trigger] self.dirs@[i].name@ == k;
                    self.dirs@[i].files_view()
                },
        )
    }
}

proof fn lemma_dir_at(s: TargetStore, i: int)
    requires
        s.wf(),
        0 <= i < s.dirs@.len(),
    ensures
        s@.contains_key(s.dirs@[i].name@),
        s@[s.dirs@[i].name@] == s.dirs@[i].files_view(),
{
    let k = s.dirs@[i].name@;
    let w = choose|w: int| 0 <= w < s.dirs@.len() && #[trigger] s.dirs@[w].name@ == k;
    assert(w == i);
}

impl TargetStore {
    /// Target names are unique, and each target's file names are unique.
    pub open spec fn wf(self) -> bool {
        &&& forall|i: int, j: int|
            0 <= i < j < self.dirs@.len() ==> #[trigger] self.dirs@[i].name@ != #[trigger] self.dirs@[j].name@
        &&& forall|i: int| 0 <= i < self.dirs@.len() ==> (#[trigger] self.dirs@[i]).files_wf()
    }

    /// A store with no targets at all.
    pub fn new() -> (s: Self)
        ensures
            s.wf(),
            s@ =~= Map::<Seq<char>, Map<Seq<char>, Seq<char>>>::empty(),
    {
        TargetStore { dirs: Vec::new() }
    }

    fn find(&self, name: &str) -> (r: Option<usize>)
        requires
            self.wf(),
        ensures
            match r {
                Some(i) => i < self.dirs@.len() && self.dirs@[i as int].name@ == name@
                    && self@.contains_key(name@),
                None => !self@.contains_key(name@),
            },
    {
        let n = self.dirs.len();
        let mut i: usize = 0;
        while i < n
            invariant
                i <= n,
                n == self.dirs@.len(),
                self.wf(),
                forall|j: int| 0 <= j < i ==> #[trigger] self.dirs@[j].name@ != name@,
            decreases n - i,
        {
            if str_eq(self.dirs[i].name.as_str(), name) {
                proof {
                    lemma_dir_at(*self, i as int);
                }
                return Some(i);
            }
            i = i + 1;
        }
        None
    }

    /// Whether a target directory of this name exists.
    pub fn contains_target(&self, name: &str) -> (b: bool)
        requires
            self.wf(),
        ensures
            b == self@.contains_key(name@),
    {
        match self.find(name) {
            Some(_) => true,
            None => false,
        }
    }

    /// Creates an empty target directory.
    pub fn create_target(&mut self, name: &str)
        requires
            old(self).wf(),
            !old(self)@.contains_key(name@),
        ensures
            final(self).wf(),
            final(self)@ == old(self)@.insert(name@, Map::<Seq<char>, Seq<char>>::empty()),
    {
        let dir = TargetDir { name: name.to_owned(), files: Vec::new() };
        proof {
            assert(dir.files_view() =~= Map::<Seq<char>, Seq<char>>::empty());
        }
        self.dirs.push(dir);
        proof {
            let post = *self;
            let pre = *old(self);
            let len = pre.dirs@.len() as int;
            assert(post.dirs@[len].name@ == name@);
            assert forall|k: Seq<char>| true implies #[trigger] post@.contains_key(k)
                == pre@.insert(name@, Map::<Seq<char>, Seq<char>>::empty()).contains_key(k) by {
                if post@.contains_key(k) {
                    let i = choose|i: int|
                        0 <= i < post.dirs@.len() && #[trigger] post.dirs@[i].name@ == k;
                    if i < len {
                        assert(pre.dirs@[i].name@ == k);
                    }
                } else {
                    if pre@.contains_key(k) {
                        let i = choose|i: int|
                            0 <= i < pre.dirs@.len() && #[trigger] pre.dirs@[i].name@ == k;
                        assert(post.dirs@[i].name@ == k);
                    }
                    if k == name@ {
                        assert(post.dirs@[len].name@ == k);
                    }
                }
            }
            assert forall|k: Seq<char>| post@.contains_key(k) implies post@[k] == pre@.insert(
                name@,
                Map::<Seq<char>, Seq<char>>::empty(),
            )[k] by {
                if k == name@ {
                    lemma_dir_at(post, len);
                } else {
                    let i = choose|i: int|
                        0 <= i < pre.dirs@.len() && #[trigger] pre.dirs@[i].name@ == k;
                    lemma_dir_at(pre, i);
                    lemma_dir_at(post, i);
                }
            }
            assert(post@ =~= pre@.insert(name@, Map::<Seq<char>, Seq<char>>::empty()));
        }
    }

    /// Removes the target directory of this name, with everything in it.
    pub fn remove_target(&mut self, name: &str)
        requires
            old(self).wf(),
        ensures
            final(self).wf(),
            final(self)@ == old(self)@.remove(name@),
    {
        let found = self.find(name);
        match found {
            None => {
                proof {
                    assert(final(self)@ =~= old(self)@.remove(name@));
                }
            },
            Some(i) => {
                self.dirs.remove(i);
                proof {
                    let post = *self;
                    let pre = *old(self);
                    let ii = i as int;
                    assert forall|j: int| 0 <= j < post.dirs@.len() implies #[trigger] post.dirs@[j]
                        == (if j < ii {
                        pre.dirs@[j]
                    } else {
                        pre.dirs@[j + 1]
                    }) by {}
                    assert(post.wf());
                    assert forall|k: Seq<char>| true implies #[trigger] post@.contains_key(k)
                        == pre@.remove(name@).contains_key(k) by {
                        if post@.contains_key(k) {
                            let j = choose|j: int|
                                0 <= j < post.dirs@.len() && #[trigger] post.dirs@[j].name@ == k;
                            let pj = if j < ii { j } else { j + 1 };
                            assert(pre.dirs@[pj].name@ == k);
                            assert(pj != ii);
                            assert(k != name@);
                        } else {
                            if pre@.remove(name@).contains_key(k) {
                                let j = choose|j: int|
                                    0 <= j < pre.dirs@.len() && #[trigger] pre.dirs@[j].name@ == k;
                                assert(j != ii);
                                let nj = if j < ii { j } else { j - 1 };
                                assert(post.dirs@[nj].name@ == k);
                            }
                        }
                    }
                    assert forall|k: Seq<char>| post@.contains_key(k) implies post@[k]
                        == pre@.remove(name@)[k] by {
                        let j = choose|j: int|
                            0 <= j < post.dirs@.len() && #[trigger] post.dirs@[j].name@ == k;
                        let pj = if j < ii { j } else { j + 1 };
                        lemma_dir_at(post, j);
                        lemma_dir_at(pre, pj);
                    }
                    assert(post@ =~= pre@.remove(name@));
                }
            },
        }
    }

    /// Writes (or overwrites) one file inside an existing target directory.
    pub fn write_file(&mut self, name: &str, file: &str, content: &str)
        requires
            old(self).wf(),
            old(self)@.contains_key(name@),
        ensures
            final(self).wf(),
            final(self)@ == old(self)@.insert(
                name@,
                old(self)@[name@].insert(file@, content@),
            ),
    {
        let found = self.find(name);
        let i = match found {
            Some(i) => i,
            None => {
                proof {
                    assert(false);
                }
                0
            },
        };
        proof {
            lemma_dir_at(*self, i as int);
        }
        let mut dir = self.dirs.remove(i);
        let ghost store_mid = *self;
        let ghost dir_pre = dir;
        // Drop any existing file of that name, then add the new content.
        let fcount = dir.files.len();
        let mut f: usize = 0;
        let mut fdx: Option<usize> = None;
        while f < fcount
            invariant
                f <= fcount,
                fcount == dir.files@.len(),
                dir == dir_pre,
                match fdx {
                    Some(x) => x < f && dir.files@[x as int].name@ == file@,
                    None => forall|j: int| 0 <= j < f ==> #[trigger] dir.files@[j].name@ != file@,
                },
            decreases fcount - f,
        {
            if fdx.is_none() && str_eq(dir.files[f].name.as_str(), file) {
                fdx = Some(f);
            }
            f = f + 1;
        }
        if let Some(x) = fdx {
            dir.files.remove(x);
            proof {
                let mid = dir;
                let xx = x as int;
                assert forall|j: int| 0 <= j < mid.files@.len() implies #[trigger] mid.files@[j]
                    == (if j < xx {
                    dir_pre.files@[j]
                } else {
                    dir_pre.files@[j + 1]
                }) by {}
                assert(mid.files_wf());
                assert forall|j: int| 0 <= j < mid.files@.len() implies #[trigger] mid.files@[j].name@
                    != file@ by {}
            }
        }
        let ghost dir_clean = dir;
        dir.files.push(StoredFile { name: file.to_owned(), content: content.to_owned() });
        proof {
            // The rebuilt directory's files are the old ones with `file` bound
            // to the new content.
            let flen = dir_clean.files@.len() as int;
            assert(dir.files@[flen].name@ == file@);
            assert(dir.files_wf());
            assert forall|k: Seq<char>| true implies #[trigger] dir.files_view().contains_key(k)
                == dir_pre.files_view().insert(file@, content@).contains_key(k) by {
                if dir.files_view().contains_key(k) {
                    let j = choose|j: int|
                        0 <= j < dir.files@.len() && #[trigger] dir.files@[j].name@ == k;
                    if j < flen {
                        let pj = match fdx {
                            Some(x) => if j < x as int { j } else { j + 1 },
                            None => j,
                        };
                        assert(dir_pre.files@[pj].name@ == k);
                    }
                } else {
                    if k == file@ {
                        assert(dir.files@[flen].name@ == k);
                    } else if dir_pre.files_view().contains_key(k) {
                        let j = choose|j: int|
                            0 <= j < dir_pre.files@.len() && #[trigger] dir_pre.files@[j].name@ == k;
                        let nj = match fdx {
                            Some(x) => if j < x as int { j } else { j - 1 },
                            None => j,
                        };
                        assert(dir.files@[nj].name@ == k);
                    }
                }
            }
            assert forall|k: Seq<char>| dir.files_view().contains_key(k) implies dir.files_view()[k]
                == dir_pre.files_view().insert(file@, content@)[k] by {
                if k == file@ {
                    lemma_file_at(dir, flen);
                } else {
                    let j = choose|j: int|
                        0 <= j < dir.files@.len() && #[trigger] dir.files@[j].name@ == k;
                    assert(j != flen);
                    let pj = match fdx {
                        Some(x) => if j < x as int { j } else { j + 1 },
                        None => j,
                    };
                    lemma_file_at(dir, j);
                    lemma_file_at(dir_pre, pj);
                }
            }
            assert(dir.files_view() =~= dir_pre.files_view().insert(file@, content@));
        }
        self.dirs.push(dir);
        proof {
            let post = *self;
            let pre = *old(self);
            let ii = i as int;
            let plen = post.dirs@.len() as int;
            assert(post.dirs@[plen - 1] == dir);
            assert forall|j: int| 0 <= j < plen - 1 implies #[trigger] post.dirs@[j] == (if j < ii {
                pre.dirs@[j]
            } else {
                pre.dirs@[j + 1]
            }) by {}
            assert(post.wf());
            lemma_dir_at(pre, ii);
            assert forall|k: Seq<char>| true implies #[trigger] post@.contains_key(k)
                == pre@.insert(name@, pre@[name@].insert(file@, content@)).contains_key(k) by {
                if post@.contains_key(k) {
                    let j = choose|j: int|
                        0 <= j < post.dirs@.len() && #[trigger] post.dirs@[j].name@ == k;
                    if j < plen - 1 {
                        let pj = if j < ii { j } else { j + 1 };
                        assert(pre.dirs@[pj].name@ == k);
                    }
                } else {
                    if k == name@ {
                        assert(post.dirs@[plen - 1].name@ == k);
                    } else if pre@.contains_key(k) {
                        let j = choose|j: int|
                            0 <= j < pre.dirs@.len() && #[trigger] pre.dirs@[j].name@ == k;
                        assert(j != ii);
                        let nj = if j < ii { j } else { j - 1 };
                        assert(post.dirs@[nj].name@ == k);
                    }
                }
            }
            assert forall|k: Seq<char>| post@.contains_key(k) implies post@[k] == pre@.insert(
                name@,
                pre@[name@].insert(file@, content@),
            )[k] by {
                if k == name@ {
                    lemma_dir_at(post, plen - 1);
                } else {
                    let j = choose|j: int|
                        0 <= j < post.dirs@.len() && #[trigger] post.dirs@[j].name@ == k;
                    assert(j != plen - 1);
                    let pj = if j < ii { j } else { j + 1 };
                    lemma_dir_at(post, j);
                    lemma_dir_at(pre, pj);
                }
            }
            assert(post@ =~= pre@.insert(name@, pre@[name@].insert(file@, content@)));
        }
    }
}

// --- the transaction ---------------------------------------------------------------

/// Failures the driver injects into the steps between directory creation and
/// commit; `None` means the step succeeds. The download step carries the
/// error the fetch would surface.
pub struct StepFailures {
    pub eula: Option<Error>,
    pub properties: Option<Error>,
    pub download: Option<Error>,
}

impl StepFailures {
    /// A run in which every step succeeds.
    pub fn none() -> (r: Self)
        ensures
            r.eula is None,
            r.properties is None,
            r.download is None,
    {
        StepFailures { eula: None, properties: None, download: None }
    }
}

/// The files a committed transaction leaves in the target.
pub open spec fn created_files(
    port: u16,
    motd: Seq<char>,
    skip_download: bool,
    artifact: Seq<char>,
) -> Map<Seq<char>, Seq<char>> {
    let base = Map::<Seq<char>, Seq<char>>::empty().insert("eula.txt"@, eula_content_spec()).insert(
        "server.properties"@,
        server_properties_spec(port, motd),
    );
    if skip_download {
        base
    } else {
        base.insert("server.jar"@, artifact)
    }
}

/// The provisioning transaction, run against the target store.
///
/// The name is validated before anything is touched; an existing target is
/// rejected unless `force` allows replacing it. After the target directory
/// is created, every step runs under the rollback discipline: whichever step
/// fails, the target is removed again and the triggering error propagates,
/// so the store never keeps a half-populated target. On success the target
/// holds exactly the config files, and the fetched artifact unless
/// `skip_download` asked for config only. `artifact` stands for the bytes
/// the download step streams into the target.
pub fn run_create(
    store: &mut TargetStore,
    name: &str,
    port: u16,
    motd: &str,
    force: bool,
    skip_download: bool,
    artifact: &str,
    failures: &StepFailures,
) -> (r: Result<String, Error>)
    requires
        old(store).wf(),
    ensures
        final(store).wf(),
        !valid_name(name@) ==> r == Err::<String, Error>(Error::InvalidName) && final(store)@
            == old(store)@,
        valid_name(name@) && old(store)@.contains_key(name@) && !force ==> r == Err::<
            String,
            Error,
        >(Error::AlreadyExists) && final(store)@ == old(store)@,
        valid_name(name@) && (force || !old(store)@.contains_key(name@)) ==> {
            if failures.eula is Some {
                r == Err::<String, Error>(failures.eula->Some_0) && final(store)@ == old(
                    store,
                )@.remove(name@)
            } else if failures.properties is Some {
                r == Err::<String, Error>(failures.properties->Some_0) && final(store)@ == old(
                    store,
                )@.remove(name@)
            } else if !skip_download && failures.download is Some {
                r == Err::<String, Error>(failures.download->Some_0) && final(store)@ == old(
                    store,
                )@.remove(name@)
            } else {
                r matches Ok(p) && p@ == name@ && final(store)@ == old(store)@.insert(
                    name@,
                    created_files(port, motd@, skip_download, artifact@),
                )
            }
        },
        // The rollback invariant: a failure injected at any step after
        // directory creation leaves no target directory behind.
        valid_name(name@) && (force || !old(store)@.contains_key(name@)) && (failures.eula is Some
            || failures.properties is Some || (!skip_download && failures.download is Some))
            ==> !final(store)@.contains_key(name@),
{
    if let Err(e) = validate_server_name(name) {
        return Err(e);
    }
    let exists = store.contains_target(name);
    if exists && !force {
        return Err(Error::AlreadyExists);
    }
    if exists {
        store.remove_target(name);
    }
    proof {
        assert(store@ =~= old(store)@.remove(name@));
    }
    store.create_target(name);
    let mut guard = DirGuard::new(name.to_owned());
    if let Some(e) = failures.eula {
        if guard.needs_rollback() {
            store.remove_target(name);
        }
        proof {
            assert(store@ =~= old(store)@.remove(name@));
        }
        return Err(e);
    }
    store.write_file(name, "eula.txt", eula_content());
    if let Some(e) = failures.properties {
        if guard.needs_rollback() {
            store.remove_target(name);
        }
        proof {
            assert(store@ =~= old(store)@.remove(name@));
        }
        return Err(e);
    }
    let properties = server_properties_content(port, motd);
    store.write_file(name, "server.properties", properties.as_str());
    if !skip_download {
        if let Some(e) = failures.download {
            if guard.needs_rollback() {
                store.remove_target(name);
            }
            proof {
                assert(store@ =~= old(store)@.remove(name@));
            }
            return Err(e);
        }
        store.write_file(name, "server.jar", artifact);
    }
    guard.commit();
    proof {
        assert(store@[name@] =~= created_files(port, motd@, skip_download, artifact@));
        assert(store@ =~= old(store)@.insert(
            name@,
            created_files(port, motd@, skip_download, artifact@),
        ));
    }
    Ok(name.to_owned())
}

} // verus!
