use dashboard::reports::{
    branch_from_output, ci_request, ci_runs_from, git_status_label, languages_from, summarize_metadata,
    GhRun, LanguageEntry, PackageInfo,
};

#[test]
fn metadata_falls_back_to_directory_name_and_dashes() {
    let m = summarize_metadata(Some("proj".into()), None, None, "UNTRACKED".into());
    assert_eq!(m.package_name, "proj");
    assert_eq!(m.package_version, "—");
    assert_eq!(m.description, "No description.");
    assert_eq!(m.git_branch, "—");
    let m = summarize_metadata(
        Some("proj".into()),
        Some(PackageInfo { name: "pkg".into(), version: "0.2.0".into(), description: Some("  ".into()) }),
        Some("main".into()),
        "CLEAN".into(),
    );
    assert_eq!(m.package_name, "pkg");
    assert_eq!(m.package_version, "0.2.0");
    assert_eq!(m.description, "No description.");
    assert_eq!(m.git_branch, "main");
    assert_eq!(m.git_status, "CLEAN");
}

#[test]
fn git_outputs_are_read() {
    assert_eq!(branch_from_output(Some(" main\n".into())), Some("main".to_owned()));
    assert_eq!(branch_from_output(Some("\n".into())), None);
    assert_eq!(branch_from_output(None), None);
    assert_eq!(git_status_label(None), "UNTRACKED");
    assert_eq!(git_status_label(Some(" \n".into())), "CLEAN");
    assert_eq!(git_status_label(Some(" M src/lib.rs\n".into())), "DIRTY");
}

#[test]
fn ci_request_needs_a_github_remote() {
    let r = ci_request(Some("git@github.com:owner/repo.git\n".into()), Some("feature/a b".into())).unwrap();
    assert_eq!(r.owner_repo, "owner/repo");
    assert_eq!(r.api_path, "repos/owner/repo/actions/runs?per_page=25&branch=feature%2Fa%20b");
    let r = ci_request(Some("https://github.com/owner/repo".into()), None).unwrap();
    assert_eq!(r.api_path, "repos/owner/repo/actions/runs?per_page=25");
    assert!(ci_request(Some("https://gitlab.com/o/r".into()), None).is_none());
    assert!(ci_request(None, None).is_none());
}

#[test]
fn ci_runs_take_conclusion_over_status() {
    let data = ci_runs_from(
        "o/r".into(),
        vec![
            GhRun {
                html_url: "u1".into(),
                display_title: None,
                head_branch: Some("main".into()),
                created_at: "t1".into(),
                conclusion: Some("success".into()),
                status: "completed".into(),
            },
            GhRun {
                html_url: "u2".into(),
                display_title: Some("Fix".into()),
                head_branch: None,
                created_at: "t2".into(),
                conclusion: None,
                status: "in_progress".into(),
            },
        ],
    );
    assert_eq!(data.repo, "o/r");
    assert_eq!(data.runs[0].status, "success");
    assert_eq!(data.runs[0].title, "—");
    assert_eq!(data.runs[1].status, "in_progress");
    assert_eq!(data.runs[1].branch, "—");
    assert_eq!(data.runs[1].title, "Fix");
}

#[test]
fn languages_sorted_by_code_then_name() {
    let entry = |name: &str, code: Option<u64>| LanguageEntry {
        name: name.into(),
        blanks: Some(1),
        code,
        comments: Some(2),
    };
    let data = languages_from(vec![
        entry("Total", Some(1000)),
        entry("TOML", Some(10)),
        entry("Rust", Some(500)),
        entry("Markdown", Some(10)),
        entry("Empty", Some(0)),
        entry("Broken", None),
    ])
    .unwrap();
    let names: Vec<&str> = data.languages.iter().map(|l| l.name.as_str()).collect();
    assert_eq!(names, vec!["Rust", "Markdown", "TOML"]);
    assert!(languages_from(vec![entry("Total", Some(5))]).is_none());
}
