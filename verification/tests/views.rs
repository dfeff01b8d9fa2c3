use dashboard::providers::{CiRun, CiRunsData};
use dashboard::app::{App, Focus, RunProfile, TargetStatus, TargetStatusKind};
use dashboard::projects::Project;
use dashboard::providers::ProjectMetadataSummary;
use dashboard::view::{matched_lines, metadata_title, screen_plan, CiStatus, Section, SizeLevel};

fn fields(values: &[&str]) -> Vec<String> {
    values.iter().map(|v| (*v).to_owned()).collect()
}

#[test]
fn highlights_fuzzy_matches_across_metadata_fields() {
    let lines = matched_lines(&fields(&["main", "src/main.rs"]), &fields(&["main src", "", ""]));
    assert!(lines[0][0]);
    assert!(lines[1][0]);
}

#[test]
fn highlights_scoped_column_matches() {
    let lines = matched_lines(&fields(&["main", "src/main.rs"]), &fields(&["", "", "src"]));
    assert!(!lines[0][0]);
    assert!(lines[1][0]);
}

#[test]
fn no_query_highlights_nothing() {
    let lines = matched_lines(&fields(&["main", "src/main.rs"]), &fields(&["", "", ""]));
    assert_eq!(lines.len(), 2);
    assert_eq!(lines[0].len(), 4);
    assert_eq!(lines[1].len(), 11);
    assert!(lines.iter().flatten().all(|flag| !flag));
}

#[test]
fn metadata_title_leaves_out_unknown_version_and_branch() {
    let mut m = ProjectMetadataSummary {
        package_name: "dash".into(),
        package_version: "1.2.3".into(),
        description: String::new(),
        git_branch: "main".into(),
        git_status: String::new(),
    };
    assert_eq!(metadata_title(&m), "dash v1.2.3 \u{e725} main");
    m.package_version = "—".into();
    m.git_branch = "—".into();
    assert_eq!(metadata_title(&m), "dash");
}

#[test]
fn screen_shows_terminal_only_for_a_selected_running_target() {
    let mut app = App::empty("/w".to_owned());
    let plan = screen_plan(&app);
    assert_eq!(plan.left, vec![Section::Metadata]);
    assert!(!plan.show_terminal);
    assert!(!plan.show_project_search);
    app.target_statuses.push(TargetStatus {
        kind: TargetStatusKind::Running,
        project_name: "p".into(),
        project_path: "/w/p".into(),
        target_name: "app".into(),
        target_kind: "bin".into(),
        key: "k".into(),
        profile: RunProfile::Release,
        pid: None,
        started_ms: Some(0),
    });
    app.focus = Focus::RunningTargets;
    app.running_cursor = 0;
    let plan = screen_plan(&app);
    assert_eq!(plan.left, vec![Section::Metadata, Section::Running]);
    assert!(plan.show_terminal);
    assert!(!plan.show_target_search);
    let rows = app.running_rows(125_000);
    assert_eq!(rows[0].label, "p/app");
    assert_eq!(rows[0].uptime, "02:05");
    assert!(rows[0].selected);
    assert!(!rows[0].failed);
    assert_eq!(rows[0].profile, RunProfile::Release);
}

#[test]
fn project_rows_mark_large_projects_and_bookmarks() {
    let projects = vec![
        Project { name: "a".into(), path: "/w/a".into(), has_git_dir: false, is_workspace: false },
        Project { name: "b".into(), path: "/w/b".into(), has_git_dir: false, is_workspace: false },
        Project { name: "c".into(), path: "/w/c".into(), has_git_dir: false, is_workspace: false },
    ];
    let mut app = App::new("/w".to_owned(), Default::default(), Default::default(), projects);
    app.size_cache.insert("/w/b".to_owned(), 2 * 1_073_741_824);
    app.size_cache.insert("/w/c".to_owned(), 6 * 1_073_741_824);
    app.size_cache.insert("/w/a".to_owned(), 6 * 1_073_741_824);
    app.bookmarked_projects.entries.insert("/w/c".to_owned());
    let pane = app.project_pane(2);
    assert!(pane.focused);
    assert_eq!(pane.offset, 0);
    assert_eq!(pane.rows.len(), 2);
    assert!(pane.rows[0].selected);
    assert_eq!(pane.rows[0].size_level, SizeLevel::Plain);
    assert_eq!(pane.rows[1].size_level, SizeLevel::Large);
    app.cursor = 2;
    let pane = app.project_pane(2);
    assert_eq!(pane.offset, 1);
    assert_eq!(pane.rows[1].name, "c");
    assert!(pane.rows[1].bookmarked);
    assert!(pane.rows[1].selected);
}

#[test]
fn ci_status_marks() {
    let mut app = App::new(
        "/w".to_owned(),
        Default::default(),
        Default::default(),
        vec![Project { name: "a".into(), path: "/w/a".into(), has_git_dir: false, is_workspace: false }],
    );
    let run = |status: &str| CiRun {
        status: status.into(),
        branch: "a-very-long-branch-name".into(),
        title: "t".into(),
        created_at: "c".into(),
        url: "u".into(),
    };
    app.ci_runs_cache.insert(
        "/w/a".to_owned(),
        Some(CiRunsData { repo: "o/a".into(), runs: vec![run("success"), run("failure"), run("cancelled"), run("queued")] }),
    );
    app.update_ci_filter();
    let pane = app.ci_pane(10);
    let marks: Vec<CiStatus> = pane.rows.iter().map(|r| r.status).collect();
    assert_eq!(marks, vec![CiStatus::Success, CiStatus::Failure, CiStatus::Cancelled, CiStatus::Pending]);
    assert_eq!(pane.rows[0].branch, "a-very-lo…");
}

#[test]
fn given_matches_highlight_their_positions() {
    let fields = vec!["ab".to_owned(), "cd".to_owned()];
    // "ab cd": whole-row match at 0, a match at 1 in the second field.
    let lines = dashboard::view::lines_from_matches(&fields, &vec![0], &vec![vec![], vec![1]]);
    assert_eq!(lines, vec![vec![true, false], vec![false, true]]);
}
