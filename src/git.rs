//! Grouping of a repository's per-file status into a summary.

use vstd::prelude::*;

verus! {

/// The status flags of one file, as the repository reports them.
#[derive(Debug, Clone)]
pub struct StatusEntry {
    /// `None` where the path is not valid UTF-8.
    pub path: Option<String>,
    pub wt_modified: bool,
    pub wt_new: bool,
    pub index_new: bool,
    pub index_modified: bool,
    pub index_renamed: bool,
}

/// Summary of a working tree.
#[derive(Debug, Clone)]
pub struct GitStatus {
    pub branch: String,
    pub modified: Vec<String>,
    pub untracked: Vec<String>,
    pub staged: Vec<String>,
    pub ahead: usize,
    pub behind: usize,
    pub clean: bool,
}

pub open spec fn entry_path(e: StatusEntry) -> Seq<char> {
    match e.path {
        Some(p) => p@,
        None => "unknown"@,
    }
}

pub open spec fn is_modified(e: StatusEntry) -> bool {
    e.wt_modified
}

/// New in the working tree and not also modified there.
pub open spec fn is_untracked(e: StatusEntry) -> bool {
    !e.wt_modified && e.wt_new
}

pub open spec fn is_staged(e: StatusEntry) -> bool {
    e.index_new || e.index_modified || e.index_renamed
}

/// The paths of the first `n` entries that satisfy `keep`, in order.
pub open spec fn paths_where(es: Seq<StatusEntry>, n: nat, keep: spec_fn(StatusEntry) -> bool) -> Seq<Seq<char>>
    decreases n,
{
    if n == 0 {
        Seq::empty()
    } else {
        let prev = paths_where(es, (n - 1) as nat, keep);
        if keep(es[n - 1]) {
            prev.push(entry_path(es[n - 1]))
        } else {
            prev
        }
    }
}

pub open spec fn views(v: Seq<String>) -> Seq<Seq<char>> {
    v.map_values(|s: String| s@)
}

impl GitStatus {
    /// Groups `entries` into modified, untracked and staged paths, in the
    /// order given; a path that is not valid UTF-8 shows as `unknown`. The
    /// tree is clean when nothing is modified or untracked. Without a branch
    /// name the branch is `HEAD`.
    pub fn from_entries(branch: Option<String>, entries: &Vec<StatusEntry>) -> (s: GitStatus)
        ensures
            s.branch@ == match branch {
                Some(b) => b@,
                None => "HEAD"@,
            },
            views(s.modified@) == paths_where(entries@, entries@.len(), |e: StatusEntry| is_modified(e)),
            views(s.untracked@) == paths_where(entries@, entries@.len(), |e: StatusEntry| is_untracked(e)),
            views(s.staged@) == paths_where(entries@, entries@.len(), |e: StatusEntry| is_staged(e)),
            s.ahead == 0,
            s.behind == 0,
            s.clean == (s.modified@.len() == 0 && s.untracked@.len() == 0),
    {
        let mut modified: Vec<String> = Vec::new();
        let mut untracked: Vec<String> = Vec::new();
        let mut staged: Vec<String> = Vec::new();
        let mut i: usize = 0;
        while i < entries.len()
            invariant
                i <= entries@.len(),
                views(modified@) == paths_where(entries@, i as nat, |e: StatusEntry| is_modified(e)),
                views(untracked@) == paths_where(entries@, i as nat, |e: StatusEntry| is_untracked(e)),
                views(staged@) == paths_where(entries@, i as nat, |e: StatusEntry| is_staged(e)),
            decreases entries@.len() - i,
        {
            let e = &entries[i];
            let path = match &e.path {
                Some(p) => p.clone(),
                None => String::from_str("unknown"),
            };
            let ghost m0 = modified@;
            let ghost u0 = untracked@;
            let ghost s0 = staged@;
            if e.wt_modified {
                modified.push(path.clone());
            } else if e.wt_new {
                untracked.push(path.clone());
            }
            if e.index_new || e.index_modified || e.index_renamed {
                staged.push(path);
            }
            assert(views(modified@) =~= paths_where(entries@, (i + 1) as nat, |e: StatusEntry| is_modified(e)));
            assert(views(untracked@) =~= paths_where(entries@, (i + 1) as nat, |e: StatusEntry| is_untracked(e)));
            assert(views(staged@) =~= paths_where(entries@, (i + 1) as nat, |e: StatusEntry| is_staged(e)));
            i = i + 1;
        }
        let branch = match branch {
            Some(b) => b,
            None => String::from_str("HEAD"),
        };
        let clean = modified.len() == 0 && untracked.len() == 0;
        GitStatus { branch, modified, untracked, staged, ahead: 0, behind: 0, clean }
    }
}

} // verus!
