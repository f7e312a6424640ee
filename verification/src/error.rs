//! Typed failures of the library. Every operation returns a success value or
//! one of these; nothing is reported through panics.

use vstd::prelude::*;

verus! {

/// Failures of the registry, the path resolver and the repository locator.
#[derive(Debug)]
pub enum ProjectError {
    /// No project of the given name is registered.
    NotFound(String),
    /// A project of the given name is already registered.
    AlreadyExists(String),
    /// The project name is not acceptable.
    InvalidName(String),
    /// The repository URL matches neither supported dialect, or yields no
    /// usable path segments.
    InvalidUrl(String),
    /// The referenced hosting key is absent from the catalog.
    HostingNotFound(String),
    /// Neither a custom path nor a repository URL was supplied where one is
    /// required.
    PathComputation(String),
}

/// Failures around the persisted configuration document.
#[derive(Debug)]
pub enum ConfigError {
    /// The configuration file does not exist at the given path.
    NotFound(String),
    /// The configuration file could not be understood.
    Invalid(String),
    /// The configuration directory could not be created.
    DirectoryCreation(String),
    /// The configuration path could not be determined.
    PathParsing(String),
}

/// The top-level error: a configuration failure, a project/registry failure,
/// or a git-layer failure carried as its underlying message.
#[derive(Debug)]
pub enum PmError {
    Config(ConfigError),
    Project(ProjectError),
    Git(String),
}

} // verus!
