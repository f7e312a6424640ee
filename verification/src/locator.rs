//! Locating the actual on-disk repository directory of a project: worktree
//! projects keep their checkout in a branch-named subdirectory of
//! `local_path`, and entries from before the branch field existed fall back
//! to a caller-supplied directory scan.

use vstd::prelude::*;

use crate::model::Project;
use crate::strutil::join_path;

verus! {

/// One entry of a directory listing, as the locator reads it: the entry's
/// full path, whether it is a directory, and whether it holds a
/// version-control marker directory.
#[derive(Debug, Clone)]
pub struct ScanEntry {
    pub path: String,
    pub is_dir: bool,
    pub has_vcs_marker: bool,
}

/// The entry is a subdirectory with a version-control marker in it.
pub open spec fn is_marked_dir(e: ScanEntry) -> bool {
    e.is_dir && e.has_vcs_marker
}

/// Index of the first marked subdirectory, or the listing's length when
/// there is none.
pub open spec fn first_marked_index(entries: Seq<ScanEntry>) -> nat
    decreases entries.len(),
{
    if entries.len() == 0 {
        0
    } else if is_marked_dir(entries[0]) {
        0
    } else {
        1 + first_marked_index(entries.skip(1))
    }
}

/// The path of the first subdirectory that holds a version-control marker,
/// in listing order; absent when no entry qualifies. This is the legacy
/// fallback scan for worktree entries created before the branch field
/// existed: the caller lists the directory, this picks deterministically.
pub fn first_vcs_subdir(entries: &Vec<ScanEntry>) -> (r: Option<String>)
    ensures
        (r is Some) == exists|i: int| 0 <= i < entries@.len() && is_marked_dir(entries@[i]),
        r matches Some(p) ==> {
            let i = first_marked_index(entries@) as int;
            &&& 0 <= i < entries@.len()
            &&& is_marked_dir(entries@[i])
            &&& p@ == entries@[i].path@
        },
{
    let n = entries.len();
    let mut i: usize = 0;
    while i < n
        invariant
            i <= n,
            n == entries@.len(),
            forall|j: int| 0 <= j < i ==> !is_marked_dir(entries@[j]),
        decreases n - i,
    {
        if entries[i].is_dir && entries[i].has_vcs_marker {
            proof {
                lemma_first_marked_index_unique(entries@, i as int);
            }
            return Some(entries[i].path.clone());
        }
        i = i + 1;
    }
    None
}

/// `first_marked_index` is the one index with no marked entry before it and
/// either the listing's end or a marked entry at it.
proof fn lemma_first_marked_index_unique(entries: Seq<ScanEntry>, k: int)
    requires
        0 <= k <= entries.len(),
        forall|j: int| 0 <= j < k ==> !is_marked_dir(entries[j]),
        k < entries.len() ==> is_marked_dir(entries[k]),
    ensures
        first_marked_index(entries) == k,
    decreases entries.len(),
{
    if entries.len() != 0 && !is_marked_dir(entries[0]) {
        assert forall|j: int| 0 <= j < k - 1 implies !is_marked_dir(entries.skip(1)[j]) by {
            assert(entries.skip(1)[j] == entries[j + 1]);
        }
        assert(k - 1 < entries.skip(1).len() ==> is_marked_dir(entries.skip(1)[k - 1]));
        lemma_first_marked_index_unique(entries.skip(1), k - 1);
    }
}

impl Project {
    /// The filesystem path of the project's git repository.
    ///
    /// A non-worktree project lives at `local_path` itself. A worktree
    /// project with a recorded branch lives at `local_path/<branch>`. A
    /// worktree project without one (legacy layout) lives at the first
    /// subdirectory of `local_path` that holds a version-control marker —
    /// `vcs_subdir`, scanned by the caller, since this function touches no
    /// filesystem — and degrades to `local_path` itself when there is none.
    pub fn get_repo_path(&self, vcs_subdir: Option<&String>) -> (r: String)
        ensures
            !self.is_worktree ==> r@ == self.local_path@,
            self.is_worktree ==> {
                &&& self.worktree_branch matches Some(branch) ==> r@ == self.local_path@
                    + seq!['/'] + branch@
            },
            self.is_worktree && self.worktree_branch is None ==> {
                &&& vcs_subdir matches Some(d) ==> r@ == d@
                &&& vcs_subdir is None ==> r@ == self.local_path@
            },
    {
        if self.is_worktree {
            if let Some(branch) = &self.worktree_branch {
                let mut segments: Vec<String> = Vec::new();
                segments.push(branch.clone());
                let r = join_path(self.local_path.as_str(), &segments);
                assert(r@ == self.local_path@ + seq!['/'] + branch@) by {
                    assert(crate::strutil::views_of(segments@) =~= seq![branch@]);
                    assert(seq![branch@].skip(1) =~= Seq::<Seq<char>>::empty());
                    assert(crate::strutil::joined_path(self.local_path@, seq![branch@])
                        == crate::strutil::joined_path(
                        self.local_path@ + seq!['/'] + branch@,
                        Seq::<Seq<char>>::empty(),
                    ));
                }
                r
            } else {
                // Legacy layout: entries created before the branch field
                // existed; the caller scanned `local_path` for a marked
                // subdirectory.
                match vcs_subdir {
                    Some(d) => d.clone(),
                    None => self.local_path.clone(),
                }
            }
        } else {
            self.local_path.clone()
        }
    }
}

} // verus!
