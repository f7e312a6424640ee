use pm::cliargs::{resolve_output_format, OutputFormatArg};
use pm::model::{OutputFormat, Project};
use pm::query::{filter_for_batch, filter_projects, project_matches_search, search_projects};

fn project(name: &str, hosting: &str, worktree: bool, description: Option<&str>) -> Project {
    let mut p = Project::new(
        name.to_string(),
        hosting.to_string(),
        format!("~/{}/{}", hosting, name),
    );
    p.is_worktree = worktree;
    p.description = description.map(|d| d.to_string());
    p
}

fn registry() -> Vec<Project> {
    vec![
        project("widgets", "github", false, Some("A Widget Factory")),
        project("gadgets", "gitlab", true, None),
        project("tools", "github", true, Some("useful tools")),
    ]
}

#[test]
fn search_is_case_insensitive_when_asked() {
    let p = project("MyProject", "github", false, None);
    assert!(project_matches_search(&p, "myproject", true));
    assert!(!project_matches_search(&p, "myproject", false));
    assert!(project_matches_search(&p, "MyProj", false));
}

#[test]
fn search_looks_at_descriptions_too() {
    let p = project("widgets", "github", false, Some("A Widget Factory"));
    assert!(project_matches_search(&p, "factory", true));
    assert!(!project_matches_search(&p, "factory", false));
    assert!(project_matches_search(&p, "Widget F", false));
}

#[test]
fn list_filters_by_hosting() {
    let projects = registry();
    let github = "github".to_string();
    let r = filter_projects(&projects, Some(&github), false, false, None);
    assert_eq!(r.len(), 2);
    assert_eq!(r[0].name, "widgets");
    assert_eq!(r[1].name, "tools");
}

#[test]
fn list_filters_by_worktree_flags() {
    let projects = registry();
    let only_worktrees = filter_projects(&projects, None, true, false, None);
    assert_eq!(only_worktrees.len(), 2);
    assert_eq!(only_worktrees[0].name, "gadgets");
    let only_plain = filter_projects(&projects, None, false, true, None);
    assert_eq!(only_plain.len(), 1);
    assert_eq!(only_plain[0].name, "widgets");
}

#[test]
fn list_search_filter_matches_name_or_description() {
    let projects = registry();
    let needle = "WIDGET".to_string();
    let r = filter_projects(&projects, None, false, false, Some(&needle));
    assert_eq!(r.len(), 1);
    assert_eq!(r[0].name, "widgets");
}

#[test]
fn search_projects_combines_pattern_and_filters() {
    let projects = registry();
    let r = search_projects(&projects, "s", false, None, true);
    assert_eq!(r.len(), 2);
    assert_eq!(r[0].name, "gadgets");
    assert_eq!(r[1].name, "tools");
    let github = "github".to_string();
    let r2 = search_projects(&projects, "s", false, Some(&github), false);
    assert_eq!(r2.len(), 2);
    assert_eq!(r2[0].name, "widgets");
    assert_eq!(r2[1].name, "tools");
}

#[test]
fn batch_filter_selects_by_name_and_hosting() {
    let projects = registry();
    let name = "gadgets".to_string();
    let r = filter_for_batch(&projects, None, Some(&name));
    assert_eq!(r.len(), 1);
    assert_eq!(r[0].name, "gadgets");
    let gitlab = "gitlab".to_string();
    let r2 = filter_for_batch(&projects, Some(&gitlab), Some(&name));
    assert_eq!(r2.len(), 1);
    let github = "github".to_string();
    let r3 = filter_for_batch(&projects, Some(&github), Some(&name));
    assert_eq!(r3.len(), 0);
    let all = filter_for_batch(&projects, None, None);
    assert_eq!(all.len(), 3);
}

#[test]
fn output_format_prefers_the_command_line_choice() {
    assert_eq!(
        resolve_output_format(Some(OutputFormatArg::Json), OutputFormat::Table),
        OutputFormat::Json
    );
    assert_eq!(
        resolve_output_format(None, OutputFormat::Yaml),
        OutputFormat::Yaml
    );
}
