//! Registry consistency operations: lookup, insertion with the
//! name-uniqueness invariant, and removal, together with hosting-catalog
//! lookups and hosting inference from a repository URL.

use vstd::prelude::*;

use crate::error::{PmError, ProjectError};
use crate::model::{has_project, hosting_names, project_names, Config, Hosting, Project};
use crate::strutil::{contains_seq, contains_str, str_eq};

verus! {

/// Index of the first project of that name, or the sequence's length when no
/// project has it.
pub open spec fn first_name_index(projects: Seq<Project>, name: Seq<char>) -> nat
    decreases projects.len(),
{
    if projects.len() == 0 {
        0
    } else if projects[0].name@ == name {
        0
    } else {
        1 + first_name_index(projects.skip(1), name)
    }
}

/// Basic facts about `first_name_index`: it is in range, nothing before it
/// matches, and it points at a match when in range; being in range is the
/// same as the name being present.
pub proof fn lemma_first_name_index(projects: Seq<Project>, name: Seq<char>)
    ensures
        first_name_index(projects, name) <= projects.len(),
        forall|j: int| 0 <= j < first_name_index(projects, name) ==> projects[j].name@ != name,
        first_name_index(projects, name) < projects.len() ==> projects[first_name_index(
            projects,
            name,
        ) as int].name@ == name,
        (first_name_index(projects, name) < projects.len()) == has_project(projects, name),
    decreases projects.len(),
{
    if projects.len() != 0 && projects[0].name@ != name {
        lemma_first_name_index(projects.skip(1), name);
        assert forall|j: int| 0 <= j < first_name_index(projects, name) implies projects[j].name@
            != name by {
            if j >= 1 {
                assert(projects[j] == projects.skip(1)[j - 1]);
            }
        }
        if first_name_index(projects, name) < projects.len() {
            assert(projects[first_name_index(projects, name) as int] == projects.skip(1)[
                first_name_index(projects.skip(1), name) as int]);
        }
        if has_project(projects, name) {
            let i = choose|i: int| 0 <= i < projects.len() && projects[i].name@ == name;
            assert(i >= 1);
            assert(projects.skip(1)[i - 1].name@ == name);
            assert(has_project(projects.skip(1), name));
        }
        if has_project(projects.skip(1), name) {
            let i = choose|i: int|
                0 <= i < projects.skip(1).len() && projects.skip(1)[i].name@ == name;
            assert(projects[i + 1].name@ == name);
        }
    }
}

/// `first_name_index` is the one index with no match before it and either the
/// end of the sequence or a match at it.
pub proof fn lemma_first_name_index_unique(projects: Seq<Project>, name: Seq<char>, k: int)
    requires
        0 <= k <= projects.len(),
        forall|j: int| 0 <= j < k ==> projects[j].name@ != name,
        k < projects.len() ==> projects[k].name@ == name,
    ensures
        first_name_index(projects, name) == k,
    decreases projects.len(),
{
    if projects.len() != 0 && projects[0].name@ != name {
        assert forall|j: int| 0 <= j < k - 1 implies projects.skip(1)[j].name@ != name by {
            assert(projects.skip(1)[j] == projects[j + 1]);
        }
        assert(k - 1 < projects.skip(1).len() ==> projects.skip(1)[k - 1].name@ == name);
        lemma_first_name_index_unique(projects.skip(1), name, k - 1);
    }
}

/// Index of the first catalog entry of that hosting name, or the catalog's
/// length when no entry has it.
pub open spec fn first_hosting_index(hostings: Seq<(String, Hosting)>, name: Seq<char>) -> nat
    decreases hostings.len(),
{
    if hostings.len() == 0 {
        0
    } else if hostings[0].0@ == name {
        0
    } else {
        1 + first_hosting_index(hostings.skip(1), name)
    }
}

/// Some catalog entry has that hosting name.
pub open spec fn has_hosting(hostings: Seq<(String, Hosting)>, name: Seq<char>) -> bool {
    exists|i: int| 0 <= i < hostings.len() && hostings[i].0@ == name
}

/// Basic facts about `first_hosting_index`, mirroring `first_name_index`.
pub proof fn lemma_first_hosting_index(hostings: Seq<(String, Hosting)>, name: Seq<char>)
    ensures
        first_hosting_index(hostings, name) <= hostings.len(),
        forall|j: int| 0 <= j < first_hosting_index(hostings, name) ==> hostings[j].0@ != name,
        first_hosting_index(hostings, name) < hostings.len() ==> hostings[first_hosting_index(
            hostings,
            name,
        ) as int].0@ == name,
        (first_hosting_index(hostings, name) < hostings.len()) == has_hosting(hostings, name),
    decreases hostings.len(),
{
    if hostings.len() != 0 && hostings[0].0@ != name {
        lemma_first_hosting_index(hostings.skip(1), name);
        assert forall|j: int| 0 <= j < first_hosting_index(hostings, name) implies hostings[j].0@
            != name by {
            if j >= 1 {
                assert(hostings[j] == hostings.skip(1)[j - 1]);
            }
        }
        if first_hosting_index(hostings, name) < hostings.len() {
            assert(hostings[first_hosting_index(hostings, name) as int] == hostings.skip(1)[
                first_hosting_index(hostings.skip(1), name) as int]);
        }
        if has_hosting(hostings, name) {
            let i = choose|i: int| 0 <= i < hostings.len() && hostings[i].0@ == name;
            assert(hostings.skip(1)[i - 1].0@ == name);
        }
        if has_hosting(hostings.skip(1), name) {
            let i = choose|i: int|
                0 <= i < hostings.skip(1).len() && hostings.skip(1)[i].0@ == name;
            assert(hostings[i + 1].0@ == name);
        }
    }
}

impl Config {
    /// The base path of the named hosting profile, if the catalog has it.
    pub fn get_hosting_path(&self, hosting: &str) -> (r: Option<String>)
        ensures
            (r is Some) == has_hosting(self.hostings@, hosting@),
            r matches Some(p) ==> p@ == self.hostings@[first_hosting_index(
                self.hostings@,
                hosting@,
            ) as int].1.base_path@,
    {
        match self.find_hosting(hosting) {
            Some(h) => Some(h.base_path.clone()),
            None => None,
        }
    }

    /// The first catalog entry of that hosting name.
    pub fn find_hosting(&self, hosting: &str) -> (r: Option<&Hosting>)
        ensures
            (r is Some) == has_hosting(self.hostings@, hosting@),
            r matches Some(h) ==> *h == self.hostings@[first_hosting_index(
                self.hostings@,
                hosting@,
            ) as int].1,
    {
        proof {
            lemma_first_hosting_index(self.hostings@, hosting@);
        }
        let n = self.hostings.len();
        let mut i: usize = 0;
        while i < n
            invariant
                i <= n,
                n == self.hostings@.len(),
                forall|j: int| 0 <= j < i ==> self.hostings@[j].0@ != hosting@,
            decreases n - i,
        {
            if str_eq(self.hostings[i].0.as_str(), hosting) {
                proof {
                    lemma_first_hosting_index_unique(self.hostings@, hosting@, i as int);
                }
                return Some(&self.hostings[i].1);
            }
            i = i + 1;
        }
        proof {
            lemma_first_hosting_index_unique(self.hostings@, hosting@, n as int);
        }
        None
    }

    /// The name of the first catalog entry whose nonempty URL pattern occurs
    /// in `url`; `"custom"` when none matches. The catalog's declaration
    /// order is the tie-break.
    pub fn infer_hosting_from_url(&self, url: &str) -> (r: String)
        ensures
            r@ == spec_infer_hosting(self.hostings@, url@),
    {
        proof {
            assert(self.hostings@.skip(0) =~= self.hostings@);
        }
        let n = self.hostings.len();
        let mut i: usize = 0;
        while i < n
            invariant
                i <= n,
                n == self.hostings@.len(),
                spec_infer_hosting(self.hostings@, url@) == spec_infer_hosting(
                    self.hostings@.skip(i as int),
                    url@,
                ),
            decreases n - i,
        {
            proof {
                assert(self.hostings@.skip(i as int)[0] == self.hostings@[i as int]);
                assert(self.hostings@.skip(i as int).skip(1) =~= self.hostings@.skip(i + 1));
            }
            let pattern = &self.hostings[i].1.url_pattern;
            if pattern.unicode_len() > 0 && contains_str(url, pattern.as_str()) {
                return self.hostings[i].0.clone();
            }
            i = i + 1;
        }
        proof {
            assert(self.hostings@.skip(n as int) =~= Seq::<(String, Hosting)>::empty());
        }
        String::from_str("custom")
    }
}

/// The inferred hosting name: the first catalog entry whose nonempty URL
/// pattern occurs in the URL, or `"custom"`.
pub open spec fn spec_infer_hosting(hostings: Seq<(String, Hosting)>, url: Seq<char>) -> Seq<char>
    decreases hostings.len(),
{
    if hostings.len() == 0 {
        "custom"@
    } else if hostings[0].1.url_pattern@.len() > 0 && contains_seq(url, hostings[0].1.url_pattern@) {
        hostings[0].0@
    } else {
        spec_infer_hosting(hostings.skip(1), url)
    }
}

/// `first_hosting_index` is the one index with no match before it and either
/// the catalog's end or a match at it.
pub proof fn lemma_first_hosting_index_unique(
    hostings: Seq<(String, Hosting)>,
    name: Seq<char>,
    k: int,
)
    requires
        0 <= k <= hostings.len(),
        forall|j: int| 0 <= j < k ==> hostings[j].0@ != name,
        k < hostings.len() ==> hostings[k].0@ == name,
    ensures
        first_hosting_index(hostings, name) == k,
    decreases hostings.len(),
{
    if hostings.len() != 0 && hostings[0].0@ != name {
        assert forall|j: int| 0 <= j < k - 1 implies hostings.skip(1)[j].0@ != name by {
            assert(hostings.skip(1)[j] == hostings[j + 1]);
        }
        assert(k - 1 < hostings.skip(1).len() ==> hostings.skip(1)[k - 1].0@ == name);
        lemma_first_hosting_index_unique(hostings.skip(1), name, k - 1);
    }
}

impl Config {
    /// The hosting for a new project: the explicit choice when one is
    /// given, else the one inferred from the repository URL, else
    /// `"custom"`.
    pub fn choose_hosting(&self, explicit: Option<&String>, repo_url: Option<&String>) -> (r:
        String)
        ensures
            explicit matches Some(h) ==> r@ == h@,
            explicit is None ==> {
                &&& repo_url matches Some(u) ==> r@ == spec_infer_hosting(self.hostings@, u@)
                &&& repo_url is None ==> r@ == "custom"@
            },
    {
        match explicit {
            Some(h) => h.clone(),
            None => match repo_url {
                Some(u) => self.infer_hosting_from_url(u.as_str()),
                None => String::from_str("custom"),
            },
        }
    }

    /// The first project of that exact name.
    pub fn find_project(&self, name: &str) -> (r: Option<&Project>)
        ensures
            (r is Some) == has_project(self.projects@, name@),
            r matches Some(p) ==> *p == self.projects@[first_name_index(
                self.projects@,
                name@,
            ) as int],
    {
        proof {
            lemma_first_name_index(self.projects@, name@);
        }
        let n = self.projects.len();
        let mut i: usize = 0;
        while i < n
            invariant
                i <= n,
                n == self.projects@.len(),
                forall|j: int| 0 <= j < i ==> self.projects@[j].name@ != name@,
            decreases n - i,
        {
            if str_eq(self.projects[i].name.as_str(), name) {
                proof {
                    lemma_first_name_index_unique(self.projects@, name@, i as int);
                }
                return Some(&self.projects[i]);
            }
            i = i + 1;
        }
        proof {
            lemma_first_name_index_unique(self.projects@, name@, n as int);
        }
        None
    }

    /// The first project of that exact name, mutably. The prophecy clauses
    /// say that whatever the caller writes through the reference becomes the
    /// record at that project's index, every other record being kept.
    pub fn find_project_mut(&mut self, name: &str) -> (r: Option<&mut Project>)
        ensures
            (r is Some) == has_project(old(self).projects@, name@),
            r is None ==> *final(self) == *old(self),
            r matches Some(p) ==> {
                let i = first_name_index(old(self).projects@, name@) as int;
                &&& 0 <= i < old(self).projects@.len()
                &&& *p == old(self).projects@[i]
                &&& p.name@ == name@
                &&& final(self).projects@ == old(self).projects@.update(i, *final(p))
                &&& final(self).version == old(self).version
                &&& final(self).settings == old(self).settings
                &&& final(self).hostings == old(self).hostings
            },
    {
        proof {
            lemma_first_name_index(self.projects@, name@);
        }
        let n = self.projects.len();
        let mut i: usize = 0;
        while i < n
            invariant
                i <= n,
                *self == *old(self),
                n == self.projects@.len(),
                forall|j: int| 0 <= j < i ==> self.projects@[j].name@ != name@,
            decreases n - i,
        {
            if str_eq(self.projects[i].name.as_str(), name) {
                proof {
                    lemma_first_name_index_unique(self.projects@, name@, i as int);
                }
                return Some(&mut self.projects[i]);
            }
            i = i + 1;
        }
        proof {
            lemma_first_name_index_unique(self.projects@, name@, n as int);
        }
        None
    }

    /// Append a project, rejecting a duplicate name. On rejection the
    /// registry is unchanged; on success the record is appended at the end
    /// and uniqueness of names is preserved.
    pub fn add_project(&mut self, project: Project) -> (r: Result<(), PmError>)
        ensures
            has_project(old(self).projects@, project.name@) ==> {
                &&& r matches Err(PmError::Project(ProjectError::AlreadyExists(n))) && n@
                    == project.name@
                &&& *final(self) == *old(self)
            },
            !has_project(old(self).projects@, project.name@) ==> {
                &&& r is Ok
                &&& final(self).projects@ == old(self).projects@.push(project)
                &&& final(self).version == old(self).version
                &&& final(self).settings == old(self).settings
                &&& final(self).hostings == old(self).hostings
            },
            old(self).wf() ==> final(self).wf(),
    {
        if self.find_project(project.name.as_str()).is_some() {
            return Err(PmError::Project(ProjectError::AlreadyExists(project.name.clone())));
        }
        proof {
            let names = project_names(self.projects@);
            let pushed = project_names(self.projects@.push(project));
            assert(pushed =~= names.push(project.name@));
            if names.no_duplicates() {
                assert forall|i: int, j: int|
                    0 <= i < pushed.len() && 0 <= j < pushed.len() && i != j implies pushed[i]
                    != pushed[j] by {
                    if i < names.len() && j == names.len() {
                        assert(!has_project(self.projects@, project.name@));
                        assert(self.projects@[i].name@ != project.name@);
                    }
                    if j < names.len() && i == names.len() {
                        assert(self.projects@[j].name@ != project.name@);
                    }
                }
                assert(pushed.no_duplicates());
            }
        }
        self.projects.push(project);
        Ok(())
    }

    /// Remove and return the first project of that name; `NotFound` when no
    /// project has it, the registry being unchanged then.
    pub fn remove_project(&mut self, name: &str) -> (r: Result<Project, PmError>)
        ensures
            has_project(old(self).projects@, name@) ==> {
                let i = first_name_index(old(self).projects@, name@) as int;
                &&& r matches Ok(p) && p == old(self).projects@[i] && p.name@ == name@
                &&& final(self).projects@ == old(self).projects@.remove(i)
                &&& final(self).version == old(self).version
                &&& final(self).settings == old(self).settings
                &&& final(self).hostings == old(self).hostings
            },
            !has_project(old(self).projects@, name@) ==> {
                &&& r matches Err(PmError::Project(ProjectError::NotFound(n))) && n@ == name@
                &&& *final(self) == *old(self)
            },
            old(self).wf() ==> final(self).wf(),
    {
        proof {
            lemma_first_name_index(self.projects@, name@);
        }
        let n = self.projects.len();
        let mut i: usize = 0;
        while i < n
            invariant
                i <= n,
                *self == *old(self),
                n == self.projects@.len(),
                forall|j: int| 0 <= j < i ==> self.projects@[j].name@ != name@,
            decreases n - i,
        {
            if str_eq(self.projects[i].name.as_str(), name) {
                proof {
                    lemma_first_name_index_unique(self.projects@, name@, i as int);
                    let names = project_names(self.projects@);
                    let removed = project_names(self.projects@.remove(i as int));
                    assert(removed =~= names.remove(i as int));
                    if names.no_duplicates() {
                        names.remove_ensures(i as int);
                        assert forall|a: int, b: int|
                            0 <= a < removed.len() && 0 <= b < removed.len() && a
                                != b implies removed[a] != removed[b] by {
                            let a0 = if a < i { a } else { a + 1 };
                            let b0 = if b < i { b } else { b + 1 };
                            assert(removed[a] == names[a0]);
                            assert(removed[b] == names[b0]);
                        }
                    }
                }
                let p = self.projects.remove(i);
                return Ok(p);
            }
            i = i + 1;
        }
        proof {
            lemma_first_name_index_unique(self.projects@, name@, n as int);
        }
        Err(PmError::Project(ProjectError::NotFound(String::from_str(name))))
    }
}

/// Any sequence of projects has the name of a freshly appended project: a
/// second `add_project` with the same name therefore fails with
/// `AlreadyExists` and leaves the registry unchanged.
pub proof fn lemma_added_name_is_present(projects: Seq<Project>, p: Project)
    ensures
        has_project(projects.push(p), p.name@),
{
    assert(projects.push(p)[projects.len() as int].name@ == p.name@);
}

/// Removing the first project of a name from a registry whose names are
/// unique leaves no project of that name: a following `find_project` returns
/// absent.
pub proof fn lemma_removed_name_is_absent(projects: Seq<Project>, name: Seq<char>)
    requires
        project_names(projects).no_duplicates(),
        has_project(projects, name),
    ensures
        !has_project(projects.remove(first_name_index(projects, name) as int), name),
{
    lemma_first_name_index(projects, name);
    let i = first_name_index(projects, name) as int;
    let removed = projects.remove(i);
    if has_project(removed, name) {
        let j = choose|j: int| 0 <= j < removed.len() && removed[j].name@ == name;
        let j0 = if j < i {
            j
        } else {
            j + 1
        };
        assert(removed[j] == projects[j0]);
        assert(project_names(projects)[j0] == project_names(projects)[i]);
    }
}

} // verus!
