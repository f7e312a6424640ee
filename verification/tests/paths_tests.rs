use pm::paths::{expand_path, get_config_dir, get_config_file_path};

#[test]
fn config_dir_is_under_the_base_directory() {
    assert_eq!(get_config_dir("/home/u/.config"), "/home/u/.config/pm");
}

#[test]
fn config_file_is_inside_the_config_dir() {
    assert_eq!(
        get_config_file_path("/home/u/.config/pm"),
        "/home/u/.config/pm/projects.toml"
    );
}

#[test]
fn paths_without_tilde_are_unchanged() {
    assert_eq!(expand_path("/absolute/path"), "/absolute/path");
    assert_eq!(expand_path("relative/path"), "relative/path");
    assert_eq!(expand_path(""), "");
}

#[test]
fn tilde_expands_to_the_home_directory() {
    match dirs::home_dir() {
        Some(home) => {
            let expanded = expand_path("~/github.com/acme");
            assert_eq!(
                expanded,
                format!("{}/github.com/acme", home.display())
            );
        }
        None => {
            assert_eq!(expand_path("~/github.com/acme"), "~/github.com/acme");
        }
    }
}
