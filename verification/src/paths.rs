//! Where the registry document lives, and home-directory expansion of
//! stored paths. The platform base directory itself is read by the caller;
//! these functions only compute with it.

use vstd::prelude::*;

verus! {

/// The tool's configuration directory under a platform base directory (the
/// user's `.config` directory, or an override).
pub fn get_config_dir(base_dir: &str) -> (r: String)
    ensures
        r@ == base_dir@ + "/pm"@,
{
    String::from_str(base_dir).concat("/pm")
}

/// The registry document inside the configuration directory.
pub fn get_config_file_path(config_dir: &str) -> (r: String)
    ensures
        r@ == config_dir@ + "/projects.toml"@,
{
    String::from_str(config_dir).concat("/projects.toml")
}

/// Relies on `shellexpand::tilde`: expand a leading `~` to the user's home
/// directory. A path that does not start with `~` comes back unchanged, as
/// does any path when the home directory cannot be determined.
#[verifier::external_body]
pub fn expand_path(path: &str) -> (r: String)
    ensures
        path@.len() == 0 || path@[0] != '~' ==> r@ == path@,
{
    shellexpand::tilde(path).into_owned()
}

} // verus!
