//! A local project-registry library: it resolves repository URLs to local
//! filesystem paths, keeps a registry of project records with unique names,
//! locates the on-disk checkout of worktree-style projects, and drives a
//! fast-forward-only git synchronization policy.

pub mod cliargs;
pub mod clock;
pub mod error;
pub mod gitsync;
pub mod locator;
pub mod model;
pub mod paths;
pub mod query;
pub mod registry;
pub mod resolver;
pub mod strutil;
