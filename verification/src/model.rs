//! The data model: a project record, a hosting profile, and the registry
//! (`Config`) that holds the hosting catalog, display settings and the
//! ordered list of projects.

use vstd::prelude::*;

use crate::cliargs::EditArgs;
use crate::clock::now_timestamp;

verus! {

/// A named remote-git-provider profile: a default local base directory and a
/// URL substring used to auto-detect the provider from a repository URL.
#[derive(Debug, Clone)]
pub struct Hosting {
    pub base_path: String,
    pub url_pattern: String,
}

/// The chosen rendering for listings.
#[derive(Debug, Clone, Copy, PartialEq, Eq, Structural)]
pub enum OutputFormat {
    Table,
    Json,
    Yaml,
}

/// Display settings of the registry.
#[derive(Debug, Clone)]
pub struct Settings {
    pub default_output_format: OutputFormat,
}

/// One tracked repository entry. Timestamps are whole seconds since the Unix
/// epoch.
#[derive(Debug)]
pub struct Project {
    /// Unique key within the registry (case-sensitive, exact match).
    pub name: String,
    pub description: Option<String>,
    /// Absence means a local-only project with no remote.
    pub repository_url: Option<String>,
    /// True when the real checkout lives in a branch-named subdirectory of
    /// `local_path` rather than at `local_path` itself.
    pub is_worktree: bool,
    /// The detected default branch used as that subdirectory; may be absent
    /// for entries created before this field existed.
    pub worktree_branch: Option<String>,
    /// Key into the hosting catalog, or `"custom"`.
    pub hosting: String,
    /// The registry's notion of the project root, before `~` expansion.
    pub local_path: String,
    pub created_at: i64,
    pub last_updated: i64,
}

/// The registry: hosting catalog, settings, and the ordered project list.
#[derive(Debug)]
pub struct Config {
    pub version: String,
    pub settings: Settings,
    /// The hosting catalog as an ordered association list keyed by name.
    pub hostings: Vec<(String, Hosting)>,
    pub projects: Vec<Project>,
}

/// The names of the projects, in registry order.
pub open spec fn project_names(projects: Seq<Project>) -> Seq<Seq<char>> {
    projects.map_values(|p: Project| p.name@)
}

/// Some project of that exact name is registered.
pub open spec fn has_project(projects: Seq<Project>, name: Seq<char>) -> bool {
    exists|i: int| 0 <= i < projects.len() && projects[i].name@ == name
}

/// The names of the hosting catalog entries, in catalog order.
pub open spec fn hosting_names(hostings: Seq<(String, Hosting)>) -> Seq<Seq<char>> {
    hostings.map_values(|h: (String, Hosting)| h.0@)
}

impl Config {
    /// Well-formedness: no two projects share a name, and no two catalog
    /// entries share a hosting name.
    pub open spec fn wf(self) -> bool {
        &&& project_names(self.projects@).no_duplicates()
        &&& hosting_names(self.hostings@).no_duplicates()
    }
}

impl Clone for Project {
    /// An exact copy, field for field.
    fn clone(&self) -> (r: Self)
        ensures
            r == *self,
    {
        Project {
            name: self.name.clone(),
            description: clone_opt_string(&self.description),
            repository_url: clone_opt_string(&self.repository_url),
            is_worktree: self.is_worktree,
            worktree_branch: clone_opt_string(&self.worktree_branch),
            hosting: self.hosting.clone(),
            local_path: self.local_path.clone(),
            created_at: self.created_at,
            last_updated: self.last_updated,
        }
    }
}

/// Copy an optional string exactly.
fn clone_opt_string(s: &Option<String>) -> (r: Option<String>)
    ensures
        r == *s,
{
    match s {
        Some(t) => Some(t.clone()),
        None => None,
    }
}

impl Project {
    /// A fresh record: no description, no remote, not a worktree, both
    /// timestamps set to the same current instant.
    pub fn new(name: String, hosting: String, local_path: String) -> (p: Self)
        ensures
            p.name == name,
            p.description is None,
            p.repository_url is None,
            !p.is_worktree,
            p.worktree_branch is None,
            p.hosting == hosting,
            p.local_path == local_path,
            p.created_at == p.last_updated,
    {
        let now = now_timestamp();
        Project {
            name,
            description: None,
            repository_url: None,
            is_worktree: false,
            worktree_branch: None,
            hosting,
            local_path,
            created_at: now,
            last_updated: now,
        }
    }

    /// Apply an edit to the record: each given field replaces the stored
    /// value, the worktree flag is set by `worktree` and cleared by
    /// `no_worktree` (clearing wins when both are given), and a new name
    /// renames the project. Returns whether anything was given; timestamps
    /// are not touched here.
    pub fn apply_edit(&mut self, args: &EditArgs) -> (modified: bool)
        ensures
            modified == (args.description is Some || args.repo is Some || args.worktree
                || args.no_worktree || args.name_new is Some || args.path is Some),
            final(self).description == (if args.description is Some {
                args.description
            } else {
                old(self).description
            }),
            final(self).repository_url == (if args.repo is Some {
                args.repo
            } else {
                old(self).repository_url
            }),
            final(self).is_worktree == (if args.no_worktree {
                false
            } else if args.worktree {
                true
            } else {
                old(self).is_worktree
            }),
            final(self).local_path == (if args.path is Some {
                args.path.unwrap()
            } else {
                old(self).local_path
            }),
            final(self).name == (if args.name_new is Some {
                args.name_new.unwrap()
            } else {
                old(self).name
            }),
            final(self).worktree_branch == old(self).worktree_branch,
            final(self).hosting == old(self).hosting,
            final(self).created_at == old(self).created_at,
            final(self).last_updated == old(self).last_updated,
    {
        let mut modified = false;
        if let Some(desc) = &args.description {
            self.description = Some(desc.clone());
            modified = true;
        }
        if let Some(repo) = &args.repo {
            self.repository_url = Some(repo.clone());
            modified = true;
        }
        if args.worktree {
            self.is_worktree = true;
            modified = true;
        }
        if args.no_worktree {
            self.is_worktree = false;
            modified = true;
        }
        if let Some(path) = &args.path {
            self.local_path = path.clone();
            modified = true;
        }
        if let Some(new_name) = &args.name_new {
            self.name = new_name.clone();
            modified = true;
        }
        modified
    }

    /// Refresh `last_updated` to the given instant — the caller reads the
    /// clock, most simply with `now_timestamp` — keeping every other field.
    pub fn update_timestamp(&mut self, now: i64)
        ensures
            final(self).last_updated == now,
            final(self).name == old(self).name,
            final(self).description == old(self).description,
            final(self).repository_url == old(self).repository_url,
            final(self).is_worktree == old(self).is_worktree,
            final(self).worktree_branch == old(self).worktree_branch,
            final(self).hosting == old(self).hosting,
            final(self).local_path == old(self).local_path,
            final(self).created_at == old(self).created_at,
    {
        self.last_updated = now;
    }
}

impl Default for Config {
    /// The seeded registry: four hosting profiles (github, gitlab, azure and
    /// the pattern-less custom fallback), table output, and no projects.
    fn default() -> (c: Config)
        ensures
            c.wf(),
            c.version@ == "1.0"@,
            c.settings.default_output_format == OutputFormat::Table,
            c.projects@.len() == 0,
            c.hostings@.len() == 4,
            c.hostings@[0].0@ == "github"@ && c.hostings@[0].1.base_path@ == "~/github.com"@
                && c.hostings@[0].1.url_pattern@ == "github.com"@,
            c.hostings@[1].0@ == "gitlab"@ && c.hostings@[1].1.base_path@ == "~/gitlab.com"@
                && c.hostings@[1].1.url_pattern@ == "gitlab.com"@,
            c.hostings@[2].0@ == "azure"@ && c.hostings@[2].1.base_path@ == "~/azure.com"@
                && c.hostings@[2].1.url_pattern@ == "azure.com"@,
            c.hostings@[3].0@ == "custom"@ && c.hostings@[3].1.base_path@ == "~/git"@
                && c.hostings@[3].1.url_pattern@.len() == 0,
    {
        let mut hostings: Vec<(String, Hosting)> = Vec::new();
        hostings.push(
            (
                String::from_str("github"),
                Hosting {
                    base_path: String::from_str("~/github.com"),
                    url_pattern: String::from_str("github.com"),
                },
            ),
        );
        hostings.push(
            (
                String::from_str("gitlab"),
                Hosting {
                    base_path: String::from_str("~/gitlab.com"),
                    url_pattern: String::from_str("gitlab.com"),
                },
            ),
        );
        hostings.push(
            (
                String::from_str("azure"),
                Hosting {
                    base_path: String::from_str("~/azure.com"),
                    url_pattern: String::from_str("azure.com"),
                },
            ),
        );
        hostings.push(
            (
                String::from_str("custom"),
                Hosting { base_path: String::from_str("~/git"), url_pattern: String::new() },
            ),
        );
        let c = Config {
            version: String::from_str("1.0"),
            settings: Settings { default_output_format: OutputFormat::Table },
            hostings,
            projects: Vec::new(),
        };
        proof {
            reveal_strlit("github");
            reveal_strlit("gitlab");
            reveal_strlit("azure");
            reveal_strlit("custom");
            assert("github"@.len() == 6 && "gitlab"@.len() == 6 && "azure"@.len() == 5
                && "custom"@.len() == 6);
            assert("github"@[3] == 'h' && "gitlab"@[3] == 'l');
            assert("github"@[0] == 'g' && "gitlab"@[0] == 'g' && "custom"@[0] == 'c');
            assert(hosting_names(c.hostings@) =~= seq!["github"@, "gitlab"@, "azure"@, "custom"@]);
            assert(hosting_names(c.hostings@).no_duplicates());
            assert(project_names(c.projects@).no_duplicates());
        }
        c
    }
}

} // verus!
