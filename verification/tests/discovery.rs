use dashboard::persistence::RecentProjects;
use dashboard::projects::{sort_projects, Project};
use dashboard::scan::{is_workspace_listing, is_workspace_manifest, summarize_listing, ProjectScan, ScanEntry};
use dashboard::targets::{
    load_target_descriptions, select_target_kind, targets_from_metadata, CargoPackage, CargoTarget,
    TargetDescription,
};

fn entry(name: &str, is_dir: bool, parent: &str) -> ScanEntry {
    ScanEntry { name: Some(name.to_owned()), is_dir, path: format!("{parent}/{name}") }
}

#[test]
fn listing_finds_markers_and_skips_build_directories() {
    let summary = summarize_listing(&vec![
        entry(".git", true, "/r/p"),
        entry("Cargo.toml", false, "/r/p"),
        entry("target", true, "/r/p"),
        entry("src", true, "/r/p"),
        entry("node_modules", true, "/r/p"),
        entry("crates", true, "/r/p"),
    ]);
    assert!(summary.has_git_dir);
    assert!(summary.has_cargo_toml);
    assert_eq!(summary.children, vec!["/r/p/src".to_owned(), "/r/p/crates".to_owned()]);
}

#[test]
fn scan_descends_depth_first_and_stops_at_workspaces() {
    let mut scan = ProjectScan::new("/r".to_owned());
    let dir = scan.next_dir().unwrap();
    assert_eq!(dir, "/r");
    let root = summarize_listing(&vec![entry("a", true, "/r"), entry("w", true, "/r")]);
    scan.record_dir(dir, Some("r".into()), Some(root), None);
    assert!(scan.projects.is_empty());

    let dir = scan.next_dir().unwrap();
    assert_eq!(dir, "/r/a");
    let a = summarize_listing(&vec![entry(".git", true, "/r/a")]);
    scan.record_dir(dir, Some("a".into()), Some(a), None);

    let dir = scan.next_dir().unwrap();
    assert_eq!(dir, "/r/w");
    let w = summarize_listing(&vec![entry("Cargo.toml", false, "/r/w"), entry("member", true, "/r/w")]);
    assert!(is_workspace_manifest(Some("[workspace]\nmembers = [\"member\"]\n".into())));
    scan.record_dir(dir, Some("w".into()), Some(w), Some("[workspace]\nmembers = [\"member\"]\n".into()));
    assert!(scan.next_dir().is_none());

    let found: Vec<(&str, bool, bool)> =
        scan.projects.iter().map(|p| (p.name.as_str(), p.has_git_dir, p.is_workspace)).collect();
    assert_eq!(found, vec![("a", true, false), ("w", false, true)]);
}

#[test]
fn unreadable_manifest_is_no_workspace() {
    assert!(!is_workspace_manifest(None));
    assert!(!is_workspace_manifest(Some("[package]\nname = \"x\"\n".into())));
}

#[test]
fn target_kinds_prefer_binaries() {
    assert_eq!(select_target_kind(&vec!["lib".into(), "bin".into()]), Some("bin".to_owned()));
    assert_eq!(select_target_kind(&vec!["example".into()]), Some("example".to_owned()));
    assert_eq!(select_target_kind(&vec!["bench".into(), "test".into()]), Some("test".to_owned()));
    assert_eq!(select_target_kind(&vec!["lib".into(), "proc-macro".into()]), None);
}

#[test]
fn manifest_descriptions_later_metadata_wins() {
    let text = r#"
[package]
name = "demo"

[[example]]
name = "demo"
description = "  direct  "

[[example]]
name = "empty"
description = "   "

[[bin]]
description = "no name"

[package.metadata.example.demo]
description = "override"

[package.metadata.example.other]
description = ""
"#;
    let ds = load_target_descriptions(text);
    let found: Vec<(&str, &str, Option<&str>)> =
        ds.iter().map(|d| (d.kind.as_str(), d.name.as_str(), d.description.as_deref())).collect();
    assert_eq!(
        found,
        vec![("example", "demo", Some("direct")), ("example", "empty", None), ("example", "demo", Some("override"))]
    );
    assert!(load_target_descriptions("{ malformed").is_empty());
}

#[test]
fn targets_are_relative_described_and_sorted() {
    let target = |name: &str, kind: &str, src: &str| CargoTarget {
        name: name.into(),
        kinds: vec![kind.into()],
        src_path: src.into(),
        required_features: Vec::new(),
    };
    let package = CargoPackage {
        name: "pkg".into(),
        descriptions: vec![
            TargetDescription { kind: "example".into(), name: "demo".into(), description: Some("fallback".into()) },
            TargetDescription { kind: "example".into(), name: "demo".into(), description: Some("override".into()) },
        ],
        targets: vec![
            target("pkg", "lib", "/p/src/lib.rs"),
            target("zeta", "bin", "/p/src/main.rs"),
            target("demo", "example", "/p/examples/demo.rs"),
            target("alpha", "bin", "/p/src/main.rs"),
            target("outside", "test", "/elsewhere/t.rs"),
        ],
    };
    let ts = targets_from_metadata("/p", &vec![package]);
    let listed: Vec<(&str, &str, &str)> = ts.iter().map(|t| (t.path.as_str(), t.name.as_str(), t.kind.as_str())).collect();
    assert_eq!(
        listed,
        vec![
            ("/elsewhere/t.rs", "outside", "test"),
            ("examples/demo.rs", "demo", "example"),
            ("src/main.rs", "alpha", "bin"),
            ("src/main.rs", "zeta", "bin"),
        ]
    );
    assert_eq!(ts[1].description.as_deref(), Some("override"));
    assert_eq!(ts[0].package_name, "pkg");
}

fn last_description(ds: &[TargetDescription], kind: &str, name: &str) -> Option<Option<String>> {
    ds.iter().rev().find(|d| d.kind == kind && d.name == name).map(|d| d.description.clone())
}

#[test]
fn refactor_targets_description_precedence() {
    let text = r#"
[[example]]
name = "demo"
description = " direct "
[[example]]
name = "fallback"
description = " direct fallback "
[[example]]
name = "empty"
description = "   "
[package.metadata.example.demo]
description = " override "
[package.metadata.example.fallback]
description = "   "
"#;
    let ds = load_target_descriptions(text);
    assert_eq!(last_description(&ds, "example", "demo"), Some(Some("override".into())));
    assert_eq!(last_description(&ds, "example", "fallback"), Some(Some("direct fallback".into())));
    assert_eq!(last_description(&ds, "example", "empty"), Some(None));
    assert!(load_target_descriptions("{ malformed").is_empty());
}

/// A directory of an in-memory tree: its path, its entries (name, is a
/// directory) and the text of its `Cargo.toml`, if it has one.
type Dir<'a> = (&'a str, Vec<(&'a str, bool)>, Option<&'a str>);

fn scan_tree(root: &str, tree: &[Dir]) -> Vec<Project> {
    let mut scan = ProjectScan::new(root.to_owned());
    while let Some(dir) = scan.next_dir() {
        let name = dir.rsplit('/').next().map(str::to_owned);
        let found = tree.iter().find(|(path, _, _)| *path == dir);
        let Some((_, entries, manifest)) = found else {
            scan.record_dir(dir, name, None, None);
            continue;
        };
        let listing =
            summarize_listing(&entries.iter().map(|(n, is_dir)| entry(n, *is_dir, &dir)).collect());
        scan.record_dir(dir, name, Some(listing), manifest.map(str::to_owned));
    }
    scan.projects
}

#[test]
fn refactor_projects_scan_boundaries() {
    let tree: Vec<Dir> = vec![
        ("/r", vec![("git-project", true), ("cargo-project", true), ("workspace", true), ("target", true)], None),
        ("/r/git-project", vec![(".git", true)], None),
        ("/r/git-project/.git", vec![], None),
        ("/r/cargo-project", vec![("Cargo.toml", false)], Some("[package]")),
        ("/r/workspace", vec![("Cargo.toml", false), ("member", true)], Some("[workspace]")),
        ("/r/workspace/member", vec![("Cargo.toml", false)], Some("[package]")),
        ("/r/target", vec![("hidden", true)], None),
        ("/r/target/hidden", vec![("Cargo.toml", false)], Some("[package]")),
    ];
    let projects = scan_tree("/r", &tree);
    let names: std::collections::HashSet<&str> = projects.iter().map(|p| p.name.as_str()).collect();
    assert_eq!(names, std::collections::HashSet::from(["git-project", "cargo-project", "workspace"]));
    assert!(projects.iter().any(|p| p.name == "git-project" && p.has_git_dir));
    assert!(projects.iter().any(|p| p.name == "workspace" && p.is_workspace));
    assert!(scan_tree("/r/missing", &tree).is_empty());
}

#[test]
fn refactor_projects_recent_order() {
    let mut tree: Vec<Dir> = vec![(
        "/r",
        vec![("older", true), ("newer", true), ("git-a", true), ("plain-a", true), ("plain-b", true)],
        None,
    )];
    let names = ["older", "newer", "plain-a", "plain-b"];
    let paths: Vec<String> = names.iter().map(|n| format!("/r/{n}")).collect();
    for path in &paths {
        tree.push((path.as_str(), vec![("Cargo.toml", false)], Some("[package]")));
    }
    tree.push(("/r/git-a", vec![("Cargo.toml", false), (".git", true)], Some("[package]")));
    tree.push(("/r/git-a/.git", vec![], None));
    let mut projects = scan_tree("/r", &tree);
    let mut recent = RecentProjects::default();
    recent.entries.insert("/r/older".to_owned(), 10);
    recent.entries.insert("/r/newer".to_owned(), 20);
    sort_projects(&mut projects, &recent);
    assert_eq!(
        projects.iter().map(|p| p.name.as_str()).collect::<Vec<_>>(),
        ["newer", "older", "git-a", "plain-a", "plain-b"]
    );
}

#[test]
fn only_a_listed_manifest_makes_a_workspace() {
    let with = Some(summarize_listing(&vec![entry("Cargo.toml", false, "/w")]));
    let without = Some(summarize_listing(&vec![entry("src", true, "/w")]));
    assert!(is_workspace_listing(&with, Some("[workspace]".into())));
    assert!(!is_workspace_listing(&with, Some("[package]".into())));
    assert!(!is_workspace_listing(&without, Some("[workspace]".into())));
    assert!(!is_workspace_listing(&None, Some("[workspace]".into())));
}

#[test]
fn projects_of_the_same_rank_keep_their_order() {
    let p = |name: &str, path: &str| Project { name: name.into(), path: path.into(), has_git_dir: false, is_workspace: false };
    let mut projects = vec![p("same", "/r/2"), p("other", "/r/o"), p("same", "/r/1")];
    sort_projects(&mut projects, &RecentProjects::default());
    assert_eq!(projects.iter().map(|p| p.path.as_str()).collect::<Vec<_>>(), ["/r/o", "/r/2", "/r/1"]);
}
