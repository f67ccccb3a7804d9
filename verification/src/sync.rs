//! Repository sync: converging a version-controlled local checkout to the
//! remote's current head — cloning when absent, short-circuiting when
//! already equal, hard-resetting when they differ.

use vstd::prelude::*;
use vstd::string::*;
use crate::error::Error;
use crate::text::{find_char_from, trim_bounds, trim_spec, str_eq};

verus! {

/// The outcome of one repository sync.
#[derive(Clone, Copy, Debug, PartialEq, Eq, Structural)]
pub enum SyncOutcome {
    UpToDate,
    Updated,
    Cloned,
}

// --- reading the remote head ----------------------------------------------------

/// The prefix of `s` before its first tab; all of `s` when it has none.
pub open spec fn until_tab(s: Seq<char>) -> Seq<char>
    decreases s.len(),
{
    if s.len() == 0 {
        s
    } else if s[0] == '\t' {
        Seq::empty()
    } else {
        seq![s[0]] + until_tab(s.drop_first())
    }
}

proof fn lemma_until_tab_at(s: Seq<char>, k: int)
    requires
        0 <= k <= s.len(),
        forall|j: int| 0 <= j < k ==> s[j] != '\t',
        k < s.len() ==> s[k] == '\t',
    ensures
        until_tab(s) == s.take(k),
    decreases k,
{
    if s.len() == 0 {
        assert(s.take(k) =~= s);
    } else if k == 0 {
        assert(s.take(0) =~= Seq::<char>::empty());
    } else {
        let t = s.drop_first();
        lemma_until_tab_at(t, k - 1);
        assert(seq![s[0]] + t.take(k - 1) =~= s.take(k));
    }
}

/// The revision identifier in the head-listing output of the remote: the
/// text before the first tab, trimmed.
pub fn parse_remote_head(output: &str) -> (r: String)
    ensures
        r@ == trim_spec(until_tab(output@)),
{
    let n = output.unicode_len();
    let t = find_char_from(output, 0, n, '\t');
    proof {
        lemma_until_tab_at(output@, t as int);
    }
    let head = output.substring_char(0, t);
    proof {
        assert(head@ =~= until_tab(output@));
    }
    let bounds = trim_bounds(head);
    let trimmed = head.substring_char(bounds.0, bounds.1);
    trimmed.to_owned()
}

/// Whether the local checkout's revision already matches the remote head, as
/// read from the two query outputs: the local revision is trimmed, the
/// remote head is the trimmed text before the first tab.
pub fn heads_match(local_rev: &str, remote_output: &str) -> (b: bool)
    ensures
        b == (trim_spec(local_rev@) == trim_spec(until_tab(remote_output@))),
{
    let bounds = trim_bounds(local_rev);
    let local = local_rev.substring_char(bounds.0, bounds.1);
    let remote = parse_remote_head(remote_output);
    str_eq(local, remote.as_str())
}

// --- the sync transition -----------------------------------------------------------

/// Which steps the driver reports as failing when they are reached.
#[derive(Clone, Copy, Debug, PartialEq, Eq, Structural)]
pub struct SyncFailures {
    pub clone_fails: bool,
    pub fetch_fails: bool,
    pub reset_fails: bool,
}

impl SyncFailures {
    /// A run in which every step succeeds.
    pub fn none() -> (r: Self)
        ensures
            r == (SyncFailures { clone_fails: false, fetch_fails: false, reset_fails: false }),
    {
        SyncFailures { clone_fails: false, fetch_fails: false, reset_fails: false }
    }
}

/// One sync call as a transition on the world it sees: from the local head
/// (absent when no checkout exists) and the remote head to the new local
/// head and the call's result.
///
/// `reinstall` discards the checkout first. A missing checkout is cloned
/// (`Cloned`; a failed clone is `TransferFailed` with the checkout gone). A
/// checkout equal to the remote short-circuits as `UpToDate`, reaching no
/// step that writes. Otherwise the checkout is fetched and hard-reset to the
/// remote head (`Updated`; either step failing is `SyncFailed` with the
/// local head unchanged).
pub open spec fn sync_transition(
    local: Option<Seq<char>>,
    remote: Seq<char>,
    reinstall: bool,
    fails: SyncFailures,
) -> (Option<Seq<char>>, Result<SyncOutcome, Error>) {
    let cur = if reinstall {
        None
    } else {
        local
    };
    match cur {
        None => if fails.clone_fails {
            (cur, Err(Error::TransferFailed { status: None }))
        } else {
            (Some(remote), Ok(SyncOutcome::Cloned))
        },
        Some(l) => if l == remote {
            (cur, Ok(SyncOutcome::UpToDate))
        } else if fails.fetch_fails || fails.reset_fails {
            (cur, Err(Error::SyncFailed))
        } else {
            (Some(remote), Ok(SyncOutcome::Updated))
        },
    }
}

/// The world one sync call runs against: the local checkout's head revision,
/// absent when no checkout exists, and the remote's current head revision.
pub struct RepoModel {
    pub local: Option<String>,
    pub remote: String,
}

impl RepoModel {
    pub open spec fn local_view(self) -> Option<Seq<char>> {
        match self.local {
            Some(l) => Some(l@),
            None => None,
        }
    }
}

/// Runs one sync against the model: exactly the `sync_transition` step. The
/// remote is only read, never written.
pub fn run_sync(repo: &mut RepoModel, reinstall: bool, fails: &SyncFailures) -> (r: Result<
    SyncOutcome,
    Error,
>)
    ensures
        final(repo).remote@ == old(repo).remote@,
        (final(repo).local_view(), r) == sync_transition(
            old(repo).local_view(),
            old(repo).remote@,
            reinstall,
            *fails,
        ),
{
    if reinstall {
        repo.local = None;
    }
    let has_local = match &repo.local {
        Some(_) => true,
        None => false,
    };
    if !has_local {
        if fails.clone_fails {
            return Err(Error::TransferFailed { status: None });
        }
        repo.local = Some(repo.remote.clone());
        return Ok(SyncOutcome::Cloned);
    }
    let same = match &repo.local {
        Some(l) => str_eq(l.as_str(), repo.remote.as_str()),
        None => false,
    };
    if same {
        return Ok(SyncOutcome::UpToDate);
    }
    if fails.fetch_fails || fails.reset_fails {
        return Err(Error::SyncFailed);
    }
    repo.local = Some(repo.remote.clone());
    Ok(SyncOutcome::Updated)
}

/// Sync is idempotent: a checkout already at the remote head syncs as
/// `UpToDate` without any change, and after any successful sync, a second
/// sync against an unchanged remote is `UpToDate` and changes nothing —
/// whatever steps would fail, since no step that writes is reached.
pub proof fn lemma_sync_idempotent(
    local: Option<Seq<char>>,
    remote: Seq<char>,
    reinstall: bool,
    fails1: SyncFailures,
    fails2: SyncFailures,
)
    requires
        sync_transition(local, remote, reinstall, fails1).1 is Ok,
    ensures
        ({
            let post = sync_transition(local, remote, reinstall, fails1).0;
            sync_transition(post, remote, false, fails2) == (
                post,
                Ok::<SyncOutcome, Error>(SyncOutcome::UpToDate),
            )
        }),
        local == Some(remote) && !reinstall ==> sync_transition(local, remote, reinstall, fails1)
            == (local, Ok::<SyncOutcome, Error>(SyncOutcome::UpToDate)),
{
}

} // verus!
