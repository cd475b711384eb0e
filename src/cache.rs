//! Memo of the commits that symbolic revisions resolved to, per remote.
//! An entry, once made, is never replaced.
use vstd::prelude::*;
use crate::text::text_eq;

verus! {

#[derive(Debug, Clone, Copy, PartialEq, Eq, Structural)]
pub enum ResolutionError {
    /// The remote service could not resolve the revision.
    LookupFailed,
}

/// A revision that is already a full commit hash: 40 characters.
pub open spec fn is_full_hash(revision: Seq<char>) -> bool {
    revision.len() == 40
}

/// The most recent entry for `(remote, revision)` among `es`.
pub open spec fn find_entry(es: Seq<(Seq<char>, Seq<char>, Seq<char>)>, remote: Seq<char>, revision: Seq<char>) -> Option<Seq<char>>
    decreases es.len(),
{
    if es.len() == 0 {
        None
    } else if es.last().0 == remote && es.last().1 == revision {
        Some(es.last().2)
    } else {
        find_entry(es.drop_last(), remote, revision)
    }
}

pub struct CommitHashCache {
    entries: Vec<(String, String, String)>,
}

impl CommitHashCache {
    pub closed spec fn entries_view(&self) -> Seq<(Seq<char>, Seq<char>, Seq<char>)> {
        self.entries@.map_values(|e: (String, String, String)| (e.0@, e.1@, e.2@))
    }

    /// The commit recorded for `(remote, revision)`, if any.
    pub open spec fn lookup_view(&self, remote: Seq<char>, revision: Seq<char>) -> Option<Seq<char>> {
        find_entry(self.entries_view(), remote, revision)
    }

    /// The commit that `(remote, revision)` resolves to without asking the
    /// remote service: the revision itself when it is a full hash, else what
    /// was recorded.
    pub open spec fn known_view(&self, remote: Seq<char>, revision: Seq<char>) -> Option<Seq<char>> {
        if is_full_hash(revision) {
            Some(revision)
        } else {
            self.lookup_view(remote, revision)
        }
    }

    pub fn new() -> (r: CommitHashCache)
        ensures
            forall|remote: Seq<char>, revision: Seq<char>| r.lookup_view(remote, revision) is None,
    {
        let r = CommitHashCache { entries: Vec::new() };
        assert(r.entries_view() =~= Seq::empty());
        r
    }

    pub fn lookup(&self, remote: &str, revision: &str) -> (r: Option<String>)
        ensures
            r matches Some(h) ==> self.lookup_view(remote@, revision@) == Some(h@),
            r is None ==> self.lookup_view(remote@, revision@) is None,
    {
        let mut i: usize = self.entries.len();
        assert(self.entries_view().subrange(0, i as int) =~= self.entries_view());
        while i > 0
            invariant
                i <= self.entries@.len(),
                find_entry(self.entries_view(), remote@, revision@) == find_entry(
                    self.entries_view().subrange(0, i as int),
                    remote@,
                    revision@,
                ),
            decreases i,
        {
            let ghost pre = self.entries_view().subrange(0, i as int);
            assert(pre.drop_last() =~= self.entries_view().subrange(0, i as int - 1));
            let e = &self.entries[i - 1];
            if text_eq(e.0.as_str(), remote) && text_eq(e.1.as_str(), revision) {
                return Some(e.2.clone());
            }
            i = i - 1;
        }
        None
    }

    /// The commit for `(remote, revision)` when no remote call is needed:
    /// a full hash stands for itself and is never looked up.
    pub fn known_commit(&self, remote: &str, revision: &str) -> (r: Option<String>)
        ensures
            r matches Some(h) ==> self.known_view(remote@, revision@) == Some(h@),
            r is None ==> self.known_view(remote@, revision@) is None,
    {
        if revision.unicode_len() == 40 {
            Some(String::from_str(revision))
        } else {
            self.lookup(remote, revision)
        }
    }

    /// Takes the remote service's answer for `(remote, revision)`. A commit is
    /// recorded unless one is already, and the recorded one is returned; a
    /// failure is passed on and leaves the cache as it was.
    pub fn record_commit(&mut self, remote: &str, revision: &str, fetched: Option<String>) -> (r: Result<String, ResolutionError>)
        ensures
            fetched is None ==> r == Err::<String, ResolutionError>(ResolutionError::LookupFailed) && final(self).entries_view()
                == old(self).entries_view(),
            fetched matches Some(h) ==> r is Ok && final(self).lookup_view(remote@, revision@) == Some(r->Ok_0@) && match old(
                self,
            ).lookup_view(remote@, revision@) {
                Some(prev) => r->Ok_0@ == prev && final(self).entries_view() == old(self).entries_view(),
                None => r->Ok_0@ == h@,
            },
            forall|a: Seq<char>, b: Seq<char>|
                !(a == remote@ && b == revision@) ==> #[trigger] final(self).lookup_view(a, b) == old(self).lookup_view(a, b),
    {
        match fetched {
            None => Err(ResolutionError::LookupFailed),
            Some(h) => {
                match self.lookup(remote, revision) {
                    Some(prev) => Ok(prev),
                    None => {
                        let ghost before = self.entries_view();
                        let result = h.clone();
                        self.entries.push((String::from_str(remote), String::from_str(revision), h));
                        assert(self.entries_view().drop_last() =~= before);
                        Ok(result)
                    },
                }
            },
        }
    }
}

/// Resolving the same pair twice asks the remote service at most once: once
/// a resolution has given `commit` (known already, or fetched and recorded),
/// the next one needs no call and gives the same commit.
pub proof fn lemma_second_resolution_cached(
    before: CommitHashCache,
    after: CommitHashCache,
    remote: Seq<char>,
    revision: Seq<char>,
    commit: Seq<char>,
)
    requires
        (before.known_view(remote, revision) == Some(commit) && after.entries_view() == before.entries_view())
            || (!is_full_hash(revision) && after.lookup_view(remote, revision) == Some(commit)),
    ensures
        after.known_view(remote, revision) == Some(commit),
{
}

} // verus!
