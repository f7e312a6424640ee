//! Selecting projects for the list, search, status and update operations:
//! hosting, worktree and text filters over the registry, in registry order.

use vstd::prelude::*;

use crate::model::Project;
use crate::strutil::{contains_seq, contains_str, str_eq};

verus! {

/// What `str::to_lowercase` returns: a function of the characters alone.
pub uninterp spec fn lower_of(s: Seq<char>) -> Seq<char>;

/// Relies on `str::to_lowercase`: the lowercase form of a string, depending
/// on its characters alone.
#[verifier::external_body]
fn lowercase(s: &str) -> (r: String)
    ensures
        r@ == lower_of(s@),
{
    s.to_lowercase()
}

/// The project matches a search pattern: the pattern occurs in its name or
/// in its description, both sides lowercased when matching ignores case.
pub open spec fn matches_pattern(p: Project, pattern: Seq<char>, ignore_case: bool) -> bool {
    if ignore_case {
        contains_seq(lower_of(p.name@), pattern) || (p.description matches Some(d)
            && contains_seq(lower_of(d@), pattern))
    } else {
        contains_seq(p.name@, pattern) || (p.description matches Some(d) && contains_seq(
            d@,
            pattern,
        ))
    }
}

/// The pattern a search works with: lowered when matching ignores case.
pub open spec fn search_pattern(pattern: Seq<char>, ignore_case: bool) -> Seq<char> {
    if ignore_case {
        lower_of(pattern)
    } else {
        pattern
    }
}

/// Does the project match the (possibly case-insensitive) search pattern in
/// its name or description?
pub fn project_matches_search(p: &Project, pattern: &str, ignore_case: bool) -> (r: bool)
    ensures
        r == matches_pattern(*p, search_pattern(pattern@, ignore_case), ignore_case),
{
    if ignore_case {
        let pat = lowercase(pattern);
        let name = lowercase(p.name.as_str());
        if contains_str(name.as_str(), pat.as_str()) {
            return true;
        }
        match &p.description {
            Some(d) => {
                let desc = lowercase(d.as_str());
                contains_str(desc.as_str(), pat.as_str())
            },
            None => false,
        }
    } else {
        if contains_str(p.name.as_str(), pattern) {
            return true;
        }
        match &p.description {
            Some(d) => contains_str(d.as_str(), pattern),
            None => false,
        }
    }
}

/// The project passes the list operation's filters: hosting (exact), the
/// worktree/non-worktree restrictions, and a case-insensitive text search
/// over name and description.
pub open spec fn passes_list_filters(
    p: Project,
    hosting: Option<&String>,
    worktree_only: bool,
    non_worktree_only: bool,
    search: Option<&String>,
) -> bool {
    &&& (hosting matches Some(h) ==> p.hosting@ == h@)
    &&& (worktree_only ==> p.is_worktree)
    &&& (non_worktree_only ==> !p.is_worktree)
    &&& (search matches Some(s) ==> matches_pattern(p, lower_of(s@), true))
}

/// The subsequence of projects passing the list filters, in order.
pub open spec fn list_filtered(
    projects: Seq<Project>,
    hosting: Option<&String>,
    worktree_only: bool,
    non_worktree_only: bool,
    search: Option<&String>,
) -> Seq<Project>
    decreases projects.len(),
{
    if projects.len() == 0 {
        seq![]
    } else {
        let rest = list_filtered(
            projects.drop_last(),
            hosting,
            worktree_only,
            non_worktree_only,
            search,
        );
        if passes_list_filters(projects.last(), hosting, worktree_only, non_worktree_only, search) {
            rest.push(projects.last())
        } else {
            rest
        }
    }
}

/// The projects that pass the list filters, in registry order.
pub fn filter_projects(
    projects: &Vec<Project>,
    hosting: Option<&String>,
    worktree_only: bool,
    non_worktree_only: bool,
    search: Option<&String>,
) -> (r: Vec<Project>)
    ensures
        r@ == list_filtered(projects@, hosting, worktree_only, non_worktree_only, search),
{
    let n = projects.len();
    let mut r: Vec<Project> = Vec::new();
    assert(projects@.take(0) =~= Seq::<Project>::empty());
    let mut i: usize = 0;
    while i < n
        invariant
            i <= n,
            n == projects@.len(),
            r@ == list_filtered(
                projects@.take(i as int),
                hosting,
                worktree_only,
                non_worktree_only,
                search,
            ),
        decreases n - i,
    {
        let p = &projects[i];
        let mut keep = true;
        if let Some(h) = hosting {
            if !str_eq(p.hosting.as_str(), h.as_str()) {
                keep = false;
            }
        }
        if worktree_only && !p.is_worktree {
            keep = false;
        }
        if non_worktree_only && p.is_worktree {
            keep = false;
        }
        if keep {
            if let Some(s) = search {
                if !project_matches_search(p, s.as_str(), true) {
                    keep = false;
                }
            }
        }
        if keep {
            assert(passes_list_filters(
                projects@[i as int],
                hosting,
                worktree_only,
                non_worktree_only,
                search,
            ));
            r.push(p.clone());
        } else {
            assert(!passes_list_filters(
                projects@[i as int],
                hosting,
                worktree_only,
                non_worktree_only,
                search,
            ));
        }
        proof {
            let t = projects@.take(i + 1);
            assert(t.drop_last() =~= projects@.take(i as int));
            assert(t.last() == projects@[i as int]);
        }
        i = i + 1;
    }
    assert(projects@.take(n as int) =~= projects@);
    r
}

/// The project passes the search operation's filters: the text pattern
/// (case-sensitive unless asked otherwise), then hosting and worktree
/// restrictions.
pub open spec fn passes_search_filters(
    p: Project,
    pattern: Seq<char>,
    ignore_case: bool,
    hosting: Option<&String>,
    worktree_only: bool,
) -> bool {
    &&& matches_pattern(p, search_pattern(pattern, ignore_case), ignore_case)
    &&& (hosting matches Some(h) ==> p.hosting@ == h@)
    &&& (worktree_only ==> p.is_worktree)
}

/// The subsequence of projects passing the search filters, in order.
pub open spec fn search_filtered(
    projects: Seq<Project>,
    pattern: Seq<char>,
    ignore_case: bool,
    hosting: Option<&String>,
    worktree_only: bool,
) -> Seq<Project>
    decreases projects.len(),
{
    if projects.len() == 0 {
        seq![]
    } else {
        let rest = search_filtered(
            projects.drop_last(),
            pattern,
            ignore_case,
            hosting,
            worktree_only,
        );
        if passes_search_filters(projects.last(), pattern, ignore_case, hosting, worktree_only) {
            rest.push(projects.last())
        } else {
            rest
        }
    }
}

/// The projects that pass the search filters, in registry order.
pub fn search_projects(
    projects: &Vec<Project>,
    pattern: &str,
    ignore_case: bool,
    hosting: Option<&String>,
    worktree_only: bool,
) -> (r: Vec<Project>)
    ensures
        r@ == search_filtered(projects@, pattern@, ignore_case, hosting, worktree_only),
{
    let n = projects.len();
    let mut r: Vec<Project> = Vec::new();
    assert(projects@.take(0) =~= Seq::<Project>::empty());
    let mut i: usize = 0;
    while i < n
        invariant
            i <= n,
            n == projects@.len(),
            r@ == search_filtered(
                projects@.take(i as int),
                pattern@,
                ignore_case,
                hosting,
                worktree_only,
            ),
        decreases n - i,
    {
        let p = &projects[i];
        let mut keep = project_matches_search(p, pattern, ignore_case);
        if let Some(h) = hosting {
            if !str_eq(p.hosting.as_str(), h.as_str()) {
                keep = false;
            }
        }
        if worktree_only && !p.is_worktree {
            keep = false;
        }
        if keep {
            assert(passes_search_filters(
                projects@[i as int],
                pattern@,
                ignore_case,
                hosting,
                worktree_only,
            ));
            r.push(p.clone());
        } else {
            assert(!passes_search_filters(
                projects@[i as int],
                pattern@,
                ignore_case,
                hosting,
                worktree_only,
            ));
        }
        proof {
            let t = projects@.take(i + 1);
            assert(t.drop_last() =~= projects@.take(i as int));
            assert(t.last() == projects@[i as int]);
        }
        i = i + 1;
    }
    assert(projects@.take(n as int) =~= projects@);
    r
}

/// The project is selected for a batch status/update run: hosting and name,
/// each exact when given.
pub open spec fn passes_batch_filters(
    p: Project,
    hosting: Option<&String>,
    name: Option<&String>,
) -> bool {
    &&& (hosting matches Some(h) ==> p.hosting@ == h@)
    &&& (name matches Some(m) ==> p.name@ == m@)
}

/// The subsequence of projects selected for a batch run, in order.
pub open spec fn batch_filtered(
    projects: Seq<Project>,
    hosting: Option<&String>,
    name: Option<&String>,
) -> Seq<Project>
    decreases projects.len(),
{
    if projects.len() == 0 {
        seq![]
    } else {
        let rest = batch_filtered(projects.drop_last(), hosting, name);
        if passes_batch_filters(projects.last(), hosting, name) {
            rest.push(projects.last())
        } else {
            rest
        }
    }
}

/// The projects a batch status/update run works through, in registry order.
pub fn filter_for_batch(
    projects: &Vec<Project>,
    hosting: Option<&String>,
    name: Option<&String>,
) -> (r: Vec<Project>)
    ensures
        r@ == batch_filtered(projects@, hosting, name),
{
    let n = projects.len();
    let mut r: Vec<Project> = Vec::new();
    assert(projects@.take(0) =~= Seq::<Project>::empty());
    let mut i: usize = 0;
    while i < n
        invariant
            i <= n,
            n == projects@.len(),
            r@ == batch_filtered(projects@.take(i as int), hosting, name),
        decreases n - i,
    {
        let p = &projects[i];
        let mut keep = true;
        if let Some(h) = hosting {
            if !str_eq(p.hosting.as_str(), h.as_str()) {
                keep = false;
            }
        }
        if let Some(m) = name {
            if !str_eq(p.name.as_str(), m.as_str()) {
                keep = false;
            }
        }
        if keep {
            assert(passes_batch_filters(projects@[i as int], hosting, name));
            r.push(p.clone());
        } else {
            assert(!passes_batch_filters(projects@[i as int], hosting, name));
        }
        proof {
            let t = projects@.take(i + 1);
            assert(t.drop_last() =~= projects@.take(i as int));
            assert(t.last() == projects@[i as int]);
        }
        i = i + 1;
    }
    assert(projects@.take(n as int) =~= projects@);
    r
}

} // verus!
