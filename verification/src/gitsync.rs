//! The git synchronization layer: remote default-branch discovery, cloning
//! (plain or worktree-relocated), fetch with fast-forward-only update, and
//! working-tree status aggregation.
//!
//! Every call into the VCS library stands behind a small trusted wrapper;
//! the policy decisions — what counts as staged, modified or untracked, and
//! when an update may fast-forward — are verified functions over the plain
//! values those wrappers hand back.

use vstd::prelude::*;

use crate::error::PmError;
use crate::strutil::{join_path, starts_with};

verus! {

#[verifier::external_type_specification]
#[verifier::external_body]
pub struct ExGitError(git2::Error);

#[verifier::external_type_specification]
#[verifier::external_body]
pub struct ExRepository(git2::Repository);

/// Relies on `git2::Error::message`: the underlying message text of a
/// git-layer failure.
#[verifier::external_body]
fn git_error_text(e: &git2::Error) -> String {
    e.message().to_string()
}

/// Relies on `git2::Repository::open`: open an existing repository at a
/// path. Fails when the path is not a repository.
#[verifier::external_body]
fn repo_open(path: &str) -> Result<git2::Repository, git2::Error> {
    git2::Repository::open(path)
}

/// Relies on `git2::Remote::create_detached`, `Remote::connect_auth`
/// (fetch direction, no credentials), `RemoteConnection::default_branch`
/// and `Buf::as_str`: the remote's advertised default reference, read
/// without fetching objects.
#[verifier::external_body]
fn remote_default_branch(url: &str) -> Result<String, git2::Error> {
    let mut remote = git2::Remote::create_detached(url)?;
    let connection = remote.connect_auth(git2::Direction::Fetch, None, None)?;
    let buf = connection.default_branch()?;
    let name = buf.as_str()?.to_string();
    Ok(name)
}

/// Relies on `git2::build::RepoBuilder::clone`: clone `url` into the
/// directory `dest`, which is created as needed.
#[verifier::external_body]
fn git_clone(url: &str, dest: &str) -> Result<(), git2::Error> {
    let mut builder = git2::build::RepoBuilder::new();
    builder.clone(url, std::path::Path::new(dest)).map(|_| ())
}

/// Relies on `git2::Repository::find_remote` and `Remote::fetch`: fetch all
/// refs of the `origin` remote with its default refspecs.
#[verifier::external_body]
fn fetch_origin(repo: &git2::Repository) -> Result<(), git2::Error> {
    let mut remote = repo.find_remote("origin")?;
    remote.fetch(&[] as &[&str], None, None)
}

/// Relies on `git2::Repository::head` and `Reference::shorthand`: the
/// human-readable name of the currently checked-out branch.
#[verifier::external_body]
fn head_shorthand(repo: &git2::Repository) -> Result<String, git2::Error> {
    let head = repo.head()?;
    Ok(head.shorthand()?.to_string())
}

/// Relies on `git2::Repository::find_reference` (`FETCH_HEAD`),
/// `Repository::reference_to_annotated_commit` and
/// `Repository::merge_analysis`, with `MergeAnalysis::is_up_to_date` and
/// `MergeAnalysis::is_fast_forward`: how the fetched commit relates to the
/// current branch tip, as the pair (up to date, fast-forwardable).
#[verifier::external_body]
fn analyze_fetch_head(repo: &git2::Repository) -> Result<(bool, bool), git2::Error> {
    let fetch_head = repo.find_reference("FETCH_HEAD")?;
    let fetch_commit = repo.reference_to_annotated_commit(&fetch_head)?;
    let (analysis, _) = repo.merge_analysis(&[&fetch_commit])?;
    Ok((analysis.is_up_to_date(), analysis.is_fast_forward()))
}

/// Relies on `git2::Repository::find_reference`, `Reference::set_target`,
/// `Repository::set_head` and `Repository::checkout_head` (forced): move the
/// named branch reference to the fetched commit and make the working tree
/// match it, discarding uncommitted changes.
#[verifier::external_body]
fn fast_forward_to_fetch_head(repo: &git2::Repository, refname: &str) -> Result<
    (),
    git2::Error,
> {
    let fetch_head = repo.find_reference("FETCH_HEAD")?;
    let fetch_commit = repo.reference_to_annotated_commit(&fetch_head)?;
    let mut reference = repo.find_reference(refname)?;
    reference.set_target(fetch_commit.id(), "Fast-forward")?;
    repo.set_head(refname)?;
    repo.checkout_head(Some(git2::build::CheckoutBuilder::default().force()))
}

/// The index/working-tree state of one status entry, as plain flags.
#[derive(Debug, Clone, Copy, PartialEq, Eq, Structural)]
pub struct StatusFlags {
    pub index_new: bool,
    pub index_modified: bool,
    pub index_deleted: bool,
    pub index_renamed: bool,
    pub index_typechange: bool,
    pub wt_new: bool,
    pub wt_modified: bool,
    pub wt_deleted: bool,
    pub wt_renamed: bool,
    pub wt_typechange: bool,
}

/// Relies on `git2::Repository::statuses` (default options),
/// `StatusEntry::status` and the `git2::Status::is_index_*` / `is_wt_*`
/// accessors: every working-tree and index status entry, each as plain
/// flags.
#[verifier::external_body]
fn repo_status_flags(repo: &git2::Repository) -> Result<Vec<StatusFlags>, git2::Error> {
    let statuses = repo.statuses(None)?;
    Ok(statuses.iter().map(|e| {
        let s = e.status();
        StatusFlags {
            index_new: s.is_index_new(),
            index_modified: s.is_index_modified(),
            index_deleted: s.is_index_deleted(),
            index_renamed: s.is_index_renamed(),
            index_typechange: s.is_index_typechange(),
            wt_new: s.is_wt_new(),
            wt_modified: s.is_wt_modified(),
            wt_deleted: s.is_wt_deleted(),
            wt_renamed: s.is_wt_renamed(),
            wt_typechange: s.is_wt_typechange() }
    }).collect())
}

/// The entry counts toward the staged bucket: any index-side change.
pub open spec fn is_staged(e: StatusFlags) -> bool {
    e.index_new || e.index_modified || e.index_deleted || e.index_renamed || e.index_typechange
}

/// The entry counts toward the modified bucket: any working-tree change to a
/// tracked file.
pub open spec fn is_modified(e: StatusFlags) -> bool {
    e.wt_modified || e.wt_deleted || e.wt_renamed || e.wt_typechange
}

/// The entry counts toward the untracked bucket.
pub open spec fn is_untracked(e: StatusFlags) -> bool {
    e.wt_new
}

/// How many entries satisfy `pred`.
pub open spec fn count_matching(s: Seq<StatusFlags>, pred: spec_fn(StatusFlags) -> bool) -> nat
    decreases s.len(),
{
    if s.len() == 0 {
        0
    } else {
        count_matching(s.drop_last(), pred) + if pred(s.last()) {
            1nat
        } else {
            0nat
        }
    }
}

/// Aggregated working-tree status of one repository.
#[derive(Debug, Clone, Copy, PartialEq, Eq, Structural)]
pub struct RepoStatus {
    pub has_changes: bool,
    pub staged: usize,
    pub modified: usize,
    pub untracked: usize,
}

/// Classify status entries into the three buckets. An entry with both index
/// and working-tree changes counts toward both `staged` and `modified`;
/// `has_changes` holds exactly when any bucket is nonempty.
pub fn classify_status_entries(entries: &Vec<StatusFlags>) -> (st: RepoStatus)
    ensures
        st.staged == count_matching(entries@, |e: StatusFlags| is_staged(e)),
        st.modified == count_matching(entries@, |e: StatusFlags| is_modified(e)),
        st.untracked == count_matching(entries@, |e: StatusFlags| is_untracked(e)),
        st.has_changes == (st.staged > 0 || st.modified > 0 || st.untracked > 0),
{
    let n = entries.len();
    let mut staged: usize = 0;
    let mut modified: usize = 0;
    let mut untracked: usize = 0;
    let mut i: usize = 0;
    while i < n
        invariant
            i <= n,
            n == entries@.len(),
            staged == count_matching(entries@.take(i as int), |e: StatusFlags| is_staged(e)),
            modified == count_matching(entries@.take(i as int), |e: StatusFlags| is_modified(e)),
            untracked == count_matching(entries@.take(i as int), |e: StatusFlags| is_untracked(e)),
            staged <= i && modified <= i && untracked <= i,
        decreases n - i,
    {
        let e = entries[i];
        proof {
            let t = entries@.take(i + 1);
            assert(t.drop_last() =~= entries@.take(i as int));
            assert(t.last() == entries@[i as int]);
        }
        if e.index_new || e.index_modified || e.index_deleted || e.index_renamed
            || e.index_typechange {
            staged = staged + 1;
        }
        if e.wt_modified || e.wt_deleted || e.wt_renamed || e.wt_typechange {
            modified = modified + 1;
        }
        if e.wt_new {
            untracked = untracked + 1;
        }
        i = i + 1;
    }
    proof {
        assert(entries@.take(n as int) =~= entries@);
    }
    RepoStatus { has_changes: staged > 0 || modified > 0 || untracked > 0, staged, modified, untracked }
}

/// Open the repository at `path` and aggregate its status entries.
pub fn get_repository_status(path: &str) -> (r: Result<RepoStatus, PmError>)
    ensures
        r matches Ok(st) ==> st.has_changes == (st.staged > 0 || st.modified > 0 || st.untracked
            > 0),
        r matches Err(e) ==> e is Git,
{
    let repo = match repo_open(path) {
        Ok(repo) => repo,
        Err(e) => {
            return Err(PmError::Git(git_error_text(&e)));
        },
    };
    let entries = match repo_status_flags(&repo) {
        Ok(v) => v,
        Err(e) => {
            return Err(PmError::Git(git_error_text(&e)));
        },
    };
    Ok(classify_status_entries(&entries))
}

/// What an update may do, under the fast-forward-only policy.
#[derive(Debug, Clone, Copy, PartialEq, Eq, Structural)]
pub enum UpdateAction {
    /// The branch already points at the fetched commit: nothing to do.
    AlreadyUpToDate,
    /// The local tip is an ancestor of the fetched commit: the branch may be
    /// moved forward.
    FastForward,
    /// Histories diverged: refuse; a manual merge is required.
    Refuse,
}

/// The fast-forward-only policy: an up-to-date branch is left alone, a
/// strictly-behind branch is fast-forwarded, and any other relationship is
/// refused.
pub fn update_decision(up_to_date: bool, fast_forward: bool) -> (r: UpdateAction)
    ensures
        up_to_date ==> r == UpdateAction::AlreadyUpToDate,
        !up_to_date && fast_forward ==> r == UpdateAction::FastForward,
        !up_to_date && !fast_forward ==> r == UpdateAction::Refuse,
{
    if up_to_date {
        UpdateAction::AlreadyUpToDate
    } else if fast_forward {
        UpdateAction::FastForward
    } else {
        UpdateAction::Refuse
    }
}

/// The default branch name with a `refs/heads/` reference prefix removed.
pub open spec fn spec_strip_refs_heads(name: Seq<char>) -> Seq<char> {
    if "refs/heads/"@.is_prefix_of(name) {
        name.skip(11)
    } else {
        name
    }
}

/// Strip a `refs/heads/` prefix from an advertised default reference,
/// leaving any other name unchanged.
pub fn strip_refs_heads(name: &str) -> (r: String)
    ensures
        r@ == spec_strip_refs_heads(name@),
{
    if starts_with(name, "refs/heads/") {
        proof {
            reveal_strlit("refs/heads/");
        }
        let len = name.unicode_len();
        String::from_str(name.substring_char(11, len))
    } else {
        String::from_str(name)
    }
}

/// Connect to the remote without fetching objects and read its advertised
/// default branch, stripped of any `refs/heads/` prefix. Fails with a
/// git-layer error when the remote is unreachable or advertises nothing
/// usable.
pub fn detect_default_branch(url: &str) -> (r: Result<String, PmError>)
    ensures
        r matches Err(e) ==> e is Git,
{
    match remote_default_branch(url) {
        Ok(raw) => Ok(strip_refs_heads(raw.as_str())),
        Err(e) => Err(PmError::Git(git_error_text(&e))),
    }
}

/// Clone a repository. For a worktree project the default branch is detected
/// first, the checkout goes into `destination/<branch>`, and the branch name
/// is returned; otherwise the checkout goes into `destination` itself and no
/// branch is reported. The caller cleans up any partially created directory
/// on failure.
pub fn clone_repository(url: &str, destination: &str, is_worktree: bool) -> (r: Result<
    Option<String>,
    PmError,
>)
    ensures
        r matches Ok(branch) ==> (branch is Some) == is_worktree,
        r matches Err(e) ==> e is Git,
{
    if is_worktree {
        let branch = match detect_default_branch(url) {
            Ok(b) => b,
            Err(e) => {
                return Err(e);
            },
        };
        let mut segments: Vec<String> = Vec::new();
        segments.push(branch.clone());
        let worktree_path = join_path(destination, &segments);
        match git_clone(url, worktree_path.as_str()) {
            Ok(_) => Ok(Some(branch)),
            Err(e) => Err(PmError::Git(git_error_text(&e))),
        }
    } else {
        match git_clone(url, destination) {
            Ok(_) => Ok(None),
            Err(e) => Err(PmError::Git(git_error_text(&e))),
        }
    }
}

/// Fetch from `origin` and update the current branch under the
/// fast-forward-only policy: a branch already at the fetched commit is left
/// alone; a strictly-behind branch is moved to the fetched commit with the
/// working tree forced to match; diverged histories are refused with an
/// explicit error and the branch is not touched.
pub fn update_repository(path: &str) -> (r: Result<(), PmError>)
    ensures
        r matches Err(e) ==> e is Git,
{
    let repo = match repo_open(path) {
        Ok(repo) => repo,
        Err(e) => {
            return Err(PmError::Git(git_error_text(&e)));
        },
    };
    if let Err(e) = fetch_origin(&repo) {
        return Err(PmError::Git(git_error_text(&e)));
    }
    let branch = match head_shorthand(&repo) {
        Ok(b) => b,
        Err(e) => {
            return Err(PmError::Git(git_error_text(&e)));
        },
    };
    let (up_to_date, fast_forward) = match analyze_fetch_head(&repo) {
        Ok(t) => t,
        Err(e) => {
            return Err(PmError::Git(git_error_text(&e)));
        },
    };
    match update_decision(up_to_date, fast_forward) {
        UpdateAction::AlreadyUpToDate => Ok(()),
        UpdateAction::FastForward => {
            let refname = String::from_str("refs/heads/").concat(branch.as_str());
            match fast_forward_to_fetch_head(&repo, refname.as_str()) {
                Ok(_) => Ok(()),
                Err(e) => Err(PmError::Git(git_error_text(&e))),
            }
        },
        UpdateAction::Refuse => Err(
            PmError::Git(
                String::from_str("Fast-forward only merge not possible. Manual merge required."),
            ),
        ),
    }
}

} // verus!
