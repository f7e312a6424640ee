use pm::error::{PmError, ProjectError};
use pm::model::{Config, OutputFormat, Project};

fn sample_project(name: &str) -> Project {
    Project::new(
        name.to_string(),
        "github".to_string(),
        format!("~/github.com/acme/{}", name),
    )
}

#[test]
fn default_config_is_seeded() {
    let cfg = Config::default();
    assert_eq!(cfg.version, "1.0");
    assert_eq!(cfg.settings.default_output_format, OutputFormat::Table);
    assert_eq!(cfg.projects.len(), 0);
    assert_eq!(cfg.hostings.len(), 4);
    assert_eq!(cfg.hostings[0].0, "github");
    assert_eq!(cfg.hostings[0].1.base_path, "~/github.com");
    assert_eq!(cfg.hostings[3].0, "custom");
    assert_eq!(cfg.hostings[3].1.url_pattern, "");
}

#[test]
fn get_hosting_path_finds_known_and_rejects_unknown() {
    let cfg = Config::default();
    assert_eq!(cfg.get_hosting_path("github").as_deref(), Some("~/github.com"));
    assert_eq!(cfg.get_hosting_path("gitlab").as_deref(), Some("~/gitlab.com"));
    assert!(cfg.get_hosting_path("codeberg").is_none());
}

#[test]
fn infer_hosting_matches_url_pattern() {
    let cfg = Config::default();
    assert_eq!(
        cfg.infer_hosting_from_url("https://github.com/acme/widgets.git"),
        "github"
    );
    assert_eq!(
        cfg.infer_hosting_from_url("git@gitlab.com:acme/widgets.git"),
        "gitlab"
    );
    assert_eq!(cfg.infer_hosting_from_url("https://example.org/x.git"), "custom");
}

#[test]
fn add_project_appends_in_order() {
    let mut cfg = Config::default();
    cfg.add_project(sample_project("one")).unwrap();
    cfg.add_project(sample_project("two")).unwrap();
    assert_eq!(cfg.projects.len(), 2);
    assert_eq!(cfg.projects[0].name, "one");
    assert_eq!(cfg.projects[1].name, "two");
}

#[test]
fn duplicate_add_fails_and_leaves_registry_unchanged() {
    let mut cfg = Config::default();
    cfg.add_project(sample_project("widgets")).unwrap();
    let before_len = cfg.projects.len();
    let before_path = cfg.projects[0].local_path.clone();
    let r = cfg.add_project(sample_project("widgets"));
    match r {
        Err(PmError::Project(ProjectError::AlreadyExists(name))) => {
            assert_eq!(name, "widgets");
        }
        other => panic!("expected AlreadyExists, got {:?}", other),
    }
    assert_eq!(cfg.projects.len(), before_len);
    assert_eq!(cfg.projects[0].local_path, before_path);
}

#[test]
fn remove_then_find_is_absent() {
    let mut cfg = Config::default();
    cfg.add_project(sample_project("one")).unwrap();
    cfg.add_project(sample_project("two")).unwrap();
    let removed = cfg.remove_project("one").unwrap();
    assert_eq!(removed.name, "one");
    assert!(cfg.find_project("one").is_none());
    assert!(cfg.find_project("two").is_some());
    assert_eq!(cfg.projects.len(), 1);
}

#[test]
fn remove_missing_name_reports_not_found() {
    let mut cfg = Config::default();
    let r = cfg.remove_project("ghost");
    match r {
        Err(PmError::Project(ProjectError::NotFound(name))) => assert_eq!(name, "ghost"),
        other => panic!("expected NotFound, got {:?}", other),
    }
}

#[test]
fn find_project_returns_first_exact_match() {
    let mut cfg = Config::default();
    cfg.add_project(sample_project("alpha")).unwrap();
    cfg.add_project(sample_project("alphabet")).unwrap();
    let p = cfg.find_project("alpha").unwrap();
    assert_eq!(p.name, "alpha");
    assert!(cfg.find_project("alp").is_none());
}

#[test]
fn find_project_mut_edits_in_place() {
    let mut cfg = Config::default();
    cfg.add_project(sample_project("widgets")).unwrap();
    {
        let p = cfg.find_project_mut("widgets").unwrap();
        p.description = Some("a widget factory".to_string());
        p.update_timestamp(pm::clock::now_timestamp());
    }
    let p = cfg.find_project("widgets").unwrap();
    assert_eq!(p.description.as_deref(), Some("a widget factory"));
}

#[test]
fn new_project_has_equal_timestamps_and_empty_fields() {
    let p = sample_project("fresh");
    assert_eq!(p.created_at, p.last_updated);
    assert!(p.description.is_none());
    assert!(p.repository_url.is_none());
    assert!(!p.is_worktree);
    assert!(p.worktree_branch.is_none());
    assert_eq!(p.hosting, "github");
}

#[test]
fn update_timestamp_records_the_given_instant() {
    let mut p = sample_project("widgets");
    let created = p.created_at;
    p.update_timestamp(123);
    assert_eq!(p.last_updated, 123);
    assert_eq!(p.created_at, created);
    assert_eq!(p.name, "widgets");
}

#[test]
fn choose_hosting_prefers_explicit_then_inferred_then_custom() {
    let cfg = Config::default();
    let explicit = "azure".to_string();
    let url = "https://github.com/acme/widgets.git".to_string();
    assert_eq!(cfg.choose_hosting(Some(&explicit), Some(&url)), "azure");
    assert_eq!(cfg.choose_hosting(None, Some(&url)), "github");
    assert_eq!(cfg.choose_hosting(None, None), "custom");
}

#[test]
fn apply_edit_updates_given_fields_only() {
    let mut p = sample_project("widgets");
    let args = pm::cliargs::EditArgs {
        name: "widgets".to_string(),
        description: Some("edited".to_string()),
        repo: None,
        worktree: true,
        no_worktree: false,
        name_new: None,
        path: Some("/new/path".to_string()),
    };
    let modified = p.apply_edit(&args);
    assert!(modified);
    assert_eq!(p.description.as_deref(), Some("edited"));
    assert!(p.repository_url.is_none());
    assert!(p.is_worktree);
    assert_eq!(p.local_path, "/new/path");
    assert_eq!(p.name, "widgets");
}

#[test]
fn apply_edit_without_changes_reports_nothing_modified() {
    let mut p = sample_project("widgets");
    let args = pm::cliargs::EditArgs {
        name: "widgets".to_string(),
        description: None,
        repo: None,
        worktree: false,
        no_worktree: false,
        name_new: None,
        path: None,
    };
    assert!(!p.apply_edit(&args));
    assert!(p.description.is_none());
}

#[test]
fn apply_edit_clearing_the_worktree_flag_wins() {
    let mut p = sample_project("widgets");
    p.is_worktree = true;
    let args = pm::cliargs::EditArgs {
        name: "widgets".to_string(),
        description: None,
        repo: None,
        worktree: true,
        no_worktree: true,
        name_new: Some("gadgets".to_string()),
        path: None,
    };
    assert!(p.apply_edit(&args));
    assert!(!p.is_worktree);
    assert_eq!(p.name, "gadgets");
}

#[test]
fn end_to_end_create_flow() {
    let mut cfg = Config::default();
    let url = "https://github.com/acme/widgets.git";
    let hosting = cfg.infer_hosting_from_url(url);
    assert_eq!(hosting, "github");
    let path =
        pm::resolver::compute_project_path(&cfg, &hosting, Some(url), None, false).unwrap();
    assert_eq!(path, "~/github.com/acme/widgets");
    let mut project = Project::new("widgets".to_string(), hosting.clone(), path.clone());
    project.repository_url = Some(url.to_string());
    cfg.add_project(project).unwrap();
    assert_eq!(cfg.projects.len(), 1);
    let p = cfg.find_project("widgets").unwrap();
    assert_eq!(p.hosting, "github");
    assert_eq!(p.local_path, "~/github.com/acme/widgets");
    assert_eq!(p.repository_url.as_deref(), Some(url));
}
