use dashboard::app::keys::{KeyAction, KeyCode, KeyEvent, KeyModifiers};
use dashboard::persistence::{BookmarkedProjects, RecentProjects};
use dashboard::app::sessions::SessionReport;
use dashboard::app::{App, BackgroundResult, Focus, RequestKind, RunProfile, Target, TargetStatus, TargetStatusKind};
use dashboard::projects::Project;
use dashboard::providers::{CiRun, CiRunsData, ProjectMetadataSummary};

fn empty_app() -> App {
    App::empty("/__dashboard_test_projects__".to_owned())
}

fn project(name: &str, path: &str, git: bool) -> Project {
    Project { name: name.to_owned(), path: path.to_owned(), has_git_dir: git, is_workspace: false }
}

fn status(path: &str, kind: TargetStatusKind, key: &str) -> TargetStatus {
    TargetStatus {
        kind,
        project_name: "project".into(),
        project_path: path.into(),
        target_name: "app".into(),
        target_kind: "bin".into(),
        key: key.into(),
        profile: RunProfile::Debug,
        pid: None,
        started_ms: None,
    }
}

fn bin(name: &str, path: &str) -> Target {
    Target {
        package_name: "fixture".to_owned(),
        kind: "bin".to_owned(),
        name: name.to_owned(),
        path: path.to_owned(),
        description: None,
        required_features: Vec::new(),
    }
}

#[test]
fn refactor_runtime_status_identity() {
    let project = Project { name: "one".into(), path: "/one".into(), has_git_dir: false, is_workspace: false };
    let target = Target {
        package_name: "pkg".into(),
        kind: "bin".into(),
        name: "app".into(),
        path: "src/main.rs".into(),
        description: None,
        required_features: Vec::new(),
    };
    let mut app = empty_app();
    for (path, kind) in [("/other", TargetStatusKind::Running), ("/one", TargetStatusKind::Failed)] {
        app.target_statuses.push(status(path, kind, path));
    }
    assert_eq!(app.target_status_for(&project, &target).map(|status| &status.kind), Some(&TargetStatusKind::Failed));
    app.running_cursor = -1;
    assert!(app.current_running_target_status().is_none());
    app.running_cursor = 2;
    assert!(app.current_running_target_status().is_none());
}

#[test]
fn filters_projects_and_targets_by_scoped_columns() {
    let mut app = empty_app();
    app.projects = vec![project("dashboard", "/work/dashboard", true), project("website", "/work/site", true)];
    app.rebuild_project_matcher();
    app.project_query = "%p dashboard".to_owned();
    app.update_project_filter();
    assert_eq!(app.filtered_projects, vec![0]);

    app.targets = vec![
        Target {
            package_name: "fixture".to_owned(),
            kind: "bin".to_owned(),
            name: "dashboard".to_owned(),
            path: "src/main.rs".to_owned(),
            description: None,
            required_features: Vec::new(),
        },
        Target {
            package_name: "fixture".to_owned(),
            kind: "test".to_owned(),
            name: "dashboard".to_owned(),
            path: "tests/dashboard.rs".to_owned(),
            description: None,
            required_features: Vec::new(),
        },
    ];
    app.rebuild_target_matcher();
    app.target_query = "%k bin %n dashboard %p src".to_owned();
    app.update_target_filter();
    assert_eq!(app.filtered_targets, vec![0]);
}

#[test]
fn starting_lists_recent_projects_first_and_asks_for_sizes() {
    let mut recent = RecentProjects::default();
    recent.entries.insert("/w/b".to_owned(), 20);
    let app = App::new(
        "/w".to_owned(),
        recent,
        BookmarkedProjects::default(),
        vec![project("a", "/w/a", false), project("b", "/w/b", false), project("c", "/w/c", true)],
    );
    let names: Vec<&str> = app.projects.iter().map(|p| p.name.as_str()).collect();
    assert_eq!(names, vec!["b", "c", "a"]);
    assert_eq!(app.cursor, 0);
    let asked: Vec<(RequestKind, &str)> = app.requests.iter().map(|r| (r.kind, r.path.as_str())).collect();
    assert!(asked.contains(&(RequestKind::Targets, "/w/b")));
    assert!(asked.contains(&(RequestKind::Size, "/w/a")));
    assert!(asked.contains(&(RequestKind::Size, "/w/b")));
    assert!(asked.contains(&(RequestKind::Size, "/w/c")));
}

#[test]
fn background_results_fill_caches_and_show_current_targets() {
    let mut app = App::new(
        "/w".to_owned(),
        Default::default(),
        Default::default(),
        vec![project("a", "/w/a", false)],
    );
    assert!(app.targets_loading());
    app.apply_background_result(
        BackgroundResult::Targets("/w/a".to_owned(), vec![bin("a", "src/main.rs")]),
        0,
        Vec::new(),
    );
    assert!(!app.targets_loading());
    assert_eq!(app.targets.len(), 1);
    assert_eq!(app.filtered_targets, vec![0]);

    let summary = ProjectMetadataSummary {
        package_name: "a".into(),
        package_version: "0.1.0".into(),
        description: "An app.".into(),
        git_branch: "main".into(),
        git_status: "CLEAN".into(),
    };
    app.apply_background_result(BackgroundResult::Metadata("/w/a".to_owned(), summary), 0, Vec::new());
    assert_eq!(app.project_metadata().map(|m| m.package_version.as_str()), Some("0.1.0"));

    app.apply_background_result(BackgroundResult::Size("/w/a".to_owned(), 42), 0, Vec::new());
    assert_eq!(app.cached_project_size_bytes(&project("a", "/w/a", false)), Some(42));
    app.apply_background_result(BackgroundResult::ProjectCleaned("/w/a".to_owned()), 0, Vec::new());
    assert_eq!(app.cached_project_size_bytes(&project("a", "/w/a", false)), None);
    assert!(app.loading_sizes.contains("/w/a"));
}

#[test]
fn ci_runs_of_the_selected_project_are_filtered_by_query() {
    let mut app = App::new("/w".to_owned(), Default::default(), Default::default(), vec![project("a", "/w/a", false)]);
    let run = |branch: &str, title: &str| CiRun {
        status: "success".into(),
        branch: branch.into(),
        title: title.into(),
        created_at: "2024-01-01T00:00:00Z".into(),
        url: "https://example.invalid".into(),
    };
    app.ci_query = "FIX".to_owned();
    app.apply_background_result(
        BackgroundResult::CiRuns(
            "/w/a".to_owned(),
            Some(CiRunsData { repo: "o/a".into(), runs: vec![run("main", "Add"), run("dev", "fix bug")] }),
        ),
        0,
        Vec::new(),
    );
    assert_eq!(app.filtered_ci_runs, vec![1]);
}

#[test]
fn finished_sessions_are_dropped_and_failures_marked() {
    let mut app = empty_app();
    app.target_statuses.push(status("/a", TargetStatusKind::Building, "k1"));
    app.target_statuses.push(status("/b", TargetStatusKind::Building, "k2"));
    app.target_statuses.push(TargetStatus { started_ms: Some(1000), ..status("/c", TargetStatusKind::Building, "k3") });
    app.running_cursor = 2;
    let reports = vec![
        SessionReport { key: "k1".into(), exit: Some(true), pid: Some(1) },
        SessionReport { key: "k2".into(), exit: Some(false), pid: Some(2) },
        SessionReport { key: "k3".into(), exit: None, pid: Some(3) },
    ];
    let finished = app.refresh_target_status(&reports, 2000);
    assert_eq!(finished, vec!["k1".to_owned()]);
    assert_eq!(app.target_statuses.len(), 2);
    assert_eq!(app.target_statuses[0].kind, TargetStatusKind::Failed);
    assert_eq!(app.target_statuses[0].pid, None);
    assert_eq!(app.target_statuses[1].kind, TargetStatusKind::Running);
    assert_eq!(app.target_statuses[1].pid, Some(3));
    assert_eq!(app.running_cursor, 1);
}

#[test]
fn recently_started_targets_keep_building() {
    let mut app = empty_app();
    app.target_statuses.push(TargetStatus { started_ms: Some(1000), ..status("/c", TargetStatusKind::Building, "k") });
    let reports = vec![SessionReport { key: "k".into(), exit: None, pid: None }];
    app.refresh_target_status(&reports, 1750);
    assert_eq!(app.target_statuses[0].kind, TargetStatusKind::Building);
    app.refresh_target_status(&reports, 1751);
    assert_eq!(app.target_statuses[0].kind, TargetStatusKind::Running);
}

#[test]
fn closing_the_last_running_target_hands_focus_back() {
    let mut app = empty_app();
    app.target_statuses.push(status("/a", TargetStatusKind::Running, "k"));
    app.running_cursor = 0;
    app.focus = Focus::RunningTargets;
    assert_eq!(app.close_selected_running_target(), Some("k".to_owned()));
    assert!(app.target_statuses.is_empty());
    assert_eq!(app.running_cursor, -1);
    assert_eq!(app.focus, Focus::Projects);
}

#[test]
fn bookmark_toggles_twice_back_to_unmarked() {
    let mut app = App::new("/w".to_owned(), Default::default(), Default::default(), vec![project("a", "/w/a", false)]);
    let p = project("a", "/w/a", false);
    app.toggle_selected_project_bookmark();
    assert!(app.is_bookmarked(&p));
    assert!(app.bookmarks_dirty);
    app.toggle_selected_project_bookmark();
    assert!(!app.is_bookmarked(&p));
}

#[test]
fn asking_twice_for_the_same_work_queues_once() {
    let mut app = empty_app();
    app.request_size("/w/a".to_owned());
    app.request_size("/w/a".to_owned());
    app.request_git_status("/w/a".to_owned());
    let asked: Vec<(RequestKind, &str)> = app.requests.iter().map(|r| (r.kind, r.path.as_str())).collect();
    assert_eq!(asked, vec![(RequestKind::Size, "/w/a"), (RequestKind::GitStatus, "/w/a")]);
}

#[test]
fn counter_saturates_at_both_ends() {
    let mut app = empty_app();
    app.decrement_counter();
    assert_eq!(app.counter, 0);
    app.increment_counter();
    app.increment_counter();
    assert_eq!(app.counter, 2);
    app.counter = 255;
    app.increment_counter();
    assert_eq!(app.counter, 255);
    app.quit();
    assert!(!app.running);
}

#[test]
fn opening_a_project_records_the_time_and_lists_it_first() {
    let mut app = App::new(
        "/w".to_owned(),
        RecentProjects::default(),
        BookmarkedProjects::default(),
        vec![project("a", "/w/a", false), project("b", "/w/b", false)],
    );
    app.mark_project_opened("/w/b", 1_700_000_000);
    assert!(app.recent_dirty);
    assert_eq!(app.project_last_opened(&project("b", "/w/b", false)), Some(1_700_000_000));
    assert_eq!(app.project_last_opened(&project("a", "/w/a", false)), None);
    assert_eq!(app.projects[0].name, "b");
    assert_eq!(app.current_project().map(|p| p.name.as_str()), Some("a"));
    assert_eq!(app.running_target_statuses().len(), 0);
}

#[test]
fn deleting_a_project_forgets_it_and_its_launches() {
    let mut app = App::new(
        "/w".to_owned(),
        RecentProjects::default(),
        BookmarkedProjects::default(),
        vec![project("a", "/w/a", false), project("b", "/w/b", false)],
    );
    app.target_statuses.push(status("/w/a", TargetStatusKind::Running, "ka"));
    app.target_statuses.push(status("/w/b", TargetStatusKind::Running, "kb"));
    let removed = app.finish_delete_project("/w/a");
    assert_eq!(removed, vec!["ka".to_owned()]);
    assert_eq!(app.projects.len(), 1);
    assert_eq!(app.target_statuses.len(), 1);
    assert_eq!(app.current_project().map(|p| p.name.as_str()), Some("b"));
}

#[test]
fn q_quits_on_the_running_pane_and_x_closes_the_selected_run() {
    let mut app = empty_app();
    app.target_statuses.push(status("/a", TargetStatusKind::Running, "k"));
    app.running_cursor = 0;
    app.focus = Focus::RunningTargets;
    let action = app.handle_key_events(KeyEvent::new(KeyCode::Char('q'), KeyModifiers::empty()));
    assert!(matches!(action, KeyAction::Quit));
    assert_eq!(app.target_statuses.len(), 1);
    let action = app.handle_key_events(KeyEvent::new(KeyCode::Char('x'), KeyModifiers::empty()));
    assert!(matches!(action, KeyAction::CloseSession { key } if key == "k"));
    assert!(app.target_statuses.is_empty());
}

#[test]
fn an_open_project_is_recorded_only_once_spawned() {
    let mut app = App::new("/w".to_owned(), Default::default(), Default::default(), vec![project("a", "/w/a", false)]);
    app.finish_open_project("/w/a", false, 42);
    assert_eq!(app.project_last_opened(&project("a", "/w/a", false)), None);
    assert!(!app.recent_dirty);
    app.finish_open_project("/w/a", true, 42);
    assert_eq!(app.project_last_opened(&project("a", "/w/a", false)), Some(42));
    assert!(app.recent_dirty);
}

#[test]
fn only_project_creations_need_a_discovery() {
    assert!(!App::results_need_discovery(&vec![BackgroundResult::Size("/a".into(), 1)]));
    assert!(App::results_need_discovery(&vec![
        BackgroundResult::Size("/a".into(), 1),
        BackgroundResult::ProjectCreated(None),
    ]));
}
