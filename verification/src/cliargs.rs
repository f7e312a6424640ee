//! The command-line surface as plain data: the verbs and their argument
//! records. Parsing them from an actual command line is the caller's
//! business; the library only consumes these values.

use vstd::prelude::*;

use crate::model::OutputFormat;

verus! {

/// The requested rendering for listings.
#[derive(Debug, Clone, Copy, PartialEq, Eq, Structural)]
pub enum OutputFormatArg {
    Table,
    Json,
    Yaml,
}

/// A shell for which completions can be generated.
#[derive(Debug, Clone, Copy, PartialEq, Eq, Structural)]
pub enum Shell {
    Bash,
    Zsh,
    Fish,
    PowerShell,
    Elvish,
}

/// Arguments of the create operation.
#[derive(Debug, Clone)]
pub struct CreateArgs {
    pub name: String,
    pub description: Option<String>,
    pub repo: Option<String>,
    pub worktree: bool,
    pub hosting: Option<String>,
    pub path: Option<String>,
    pub clone: bool,
}

/// Arguments of the list operation.
#[derive(Debug, Clone)]
pub struct ListArgs {
    pub hosting: Option<String>,
    pub worktree: bool,
    pub no_worktree: bool,
    pub search: Option<String>,
}

/// Arguments of the delete operation.
#[derive(Debug, Clone)]
pub struct DeleteArgs {
    pub name: String,
    pub force: bool,
    pub delete_files: bool,
    pub keep_files: bool,
}

/// Arguments of the edit operation.
#[derive(Debug, Clone)]
pub struct EditArgs {
    pub name: String,
    pub description: Option<String>,
    pub repo: Option<String>,
    pub worktree: bool,
    pub no_worktree: bool,
    pub name_new: Option<String>,
    pub path: Option<String>,
}

/// Arguments of the status operation.
#[derive(Debug, Clone)]
pub struct StatusArgs {
    pub hosting: Option<String>,
    pub name: Option<String>,
    pub all: bool,
    pub dirty: bool,
}

/// Arguments of the update operation.
#[derive(Debug, Clone)]
pub struct UpdateArgs {
    pub hosting: Option<String>,
    pub name: Option<String>,
    pub all: bool,
    pub dry_run: bool,
}

/// Arguments of the search operation.
#[derive(Debug, Clone)]
pub struct SearchArgs {
    pub pattern: String,
    pub hosting: Option<String>,
    pub worktree: bool,
    pub ignore_case: bool,
}

/// Arguments of the navigate operation.
#[derive(Debug, Clone)]
pub struct NavigateArgs {
    pub name: String,
}

/// Arguments of the init operation.
#[derive(Debug, Clone, Copy)]
pub struct InitArgs {
    pub force: bool,
}

/// Arguments of the shell-completion operation.
#[derive(Debug, Clone, Copy)]
pub struct CompletionsArgs {
    pub shell: Shell,
}

/// The rendering a listing uses: the format asked for on the command line,
/// or the registry's default when none was.
pub fn resolve_output_format(chosen: Option<OutputFormatArg>, default: OutputFormat) -> (r:
    OutputFormat)
    ensures
        chosen matches Some(c) ==> {
            &&& c == OutputFormatArg::Table ==> r == OutputFormat::Table
            &&& c == OutputFormatArg::Json ==> r == OutputFormat::Json
            &&& c == OutputFormatArg::Yaml ==> r == OutputFormat::Yaml
        },
        chosen is None ==> r == default,
{
    match chosen {
        Some(OutputFormatArg::Table) => OutputFormat::Table,
        Some(OutputFormatArg::Json) => OutputFormat::Json,
        Some(OutputFormatArg::Yaml) => OutputFormat::Yaml,
        None => default,
    }
}

/// One invocation's verb with its arguments.
#[derive(Debug, Clone)]
pub enum Commands {
    Create(CreateArgs),
    List(ListArgs),
    Delete(DeleteArgs),
    Edit(EditArgs),
    Status(StatusArgs),
    Update(UpdateArgs),
    Search(SearchArgs),
    Navigate(NavigateArgs),
    Init(InitArgs),
    Completions(CompletionsArgs),
}

/// One parsed invocation: the verb and the global flags.
#[derive(Debug, Clone)]
pub struct Cli {
    pub command: Commands,
    pub output: Option<OutputFormatArg>,
    pub config: Option<String>,
    pub verbose: bool,
    pub quiet: bool,
}

} // verus!
