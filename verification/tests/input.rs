use dashboard::app::keys::KeyAction;
use dashboard::app::keys::{KeyCode, KeyEvent, KeyModifiers, ALT, CONTROL, SHIFT};
use dashboard::app::{App, Focus, Target};

fn empty_app() -> App {
    App::empty("/__dashboard_test_projects__".to_owned())
}

fn key(code: KeyCode) -> KeyEvent {
    KeyEvent::new(code, KeyModifiers::empty())
}

fn target(name: &str) -> Target {
    Target {
        package_name: "fixture".to_owned(),
        kind: "bin".to_owned(),
        name: name.to_owned(),
        path: format!("src/{name}.rs"),
        description: None,
        required_features: Vec::new(),
    }
}

#[test]
fn refactor_input_editing_parity() {
    for focus in [Focus::Projects, Focus::Targets, Focus::CiRuns] {
        let mut app = empty_app();
        app.focus = focus;

        for key_event in [
            KeyEvent::new(KeyCode::Char('a'), KeyModifiers::empty()),
            KeyEvent::new(KeyCode::Char('b'), KeyModifiers::empty()),
            KeyEvent::new(KeyCode::Left, KeyModifiers::empty()),
            KeyEvent::new(KeyCode::Delete, KeyModifiers::empty()),
            KeyEvent::new(KeyCode::Home, KeyModifiers::empty()),
            KeyEvent::new(KeyCode::Char('Z'), KeyModifiers::new(SHIFT)),
            KeyEvent::new(KeyCode::Char('x'), KeyModifiers::new(CONTROL)),
        ] {
            app.handle_filter_input(key_event);
        }

        let (input, query) = match focus {
            Focus::Projects => (&app.project_input, &app.project_query),
            Focus::Targets => (&app.target_input, &app.target_query),
            Focus::CiRuns => (&app.ci_input, &app.ci_query),
            Focus::RunningTargets => unreachable!(),
        };
        assert_eq!(input.value, "Za");
        assert_eq!(query, "Za");
    }

    let mut app = empty_app();
    for key_event in [
        KeyEvent::new(KeyCode::Char('a'), KeyModifiers::empty()),
        KeyEvent::new(KeyCode::Char('b'), KeyModifiers::empty()),
        KeyEvent::new(KeyCode::Left, KeyModifiers::empty()),
        KeyEvent::new(KeyCode::Delete, KeyModifiers::empty()),
        KeyEvent::new(KeyCode::Home, KeyModifiers::empty()),
        KeyEvent::new(KeyCode::Char('Z'), KeyModifiers::new(SHIFT)),
        KeyEvent::new(KeyCode::Char('x'), KeyModifiers::new(CONTROL)),
    ] {
        app.handle_create_project_input(key_event);
    }
    assert_eq!(app.create_project_input.value, "Za");
}

#[test]
fn alt_backspace_deletes_previous_search_word() {
    let mut app = empty_app();
    app.filter_mode = true;

    for c in "first second".chars() {
        app.handle_key_events(KeyEvent::new(KeyCode::Char(c), KeyModifiers::empty()));
    }
    app.handle_key_events(KeyEvent::new(KeyCode::Backspace, KeyModifiers::new(ALT)));

    assert_eq!(app.project_input.value, "first ");
    assert_eq!(app.project_query, "first ");
}

#[test]
fn escape_edits_then_clears_target_and_project_queries_in_order() {
    let mut app = empty_app();
    let escape = KeyEvent::new(KeyCode::Esc, KeyModifiers::empty());

    app.filter_mode = true;
    for c in "project".chars() {
        app.handle_key_events(KeyEvent::new(KeyCode::Char(c), KeyModifiers::empty()));
    }
    app.handle_key_events(KeyEvent::new(KeyCode::Enter, KeyModifiers::empty()));

    app.focus = Focus::Targets;
    app.filter_mode = true;
    for c in "target".chars() {
        app.handle_key_events(KeyEvent::new(KeyCode::Char(c), KeyModifiers::empty()));
    }
    app.handle_key_events(KeyEvent::new(KeyCode::Enter, KeyModifiers::empty()));

    app.handle_key_events(escape);
    assert!(app.filter_mode);
    assert_eq!(app.focus, Focus::Targets);
    assert_eq!(app.target_query, "target");

    app.handle_key_events(escape);
    assert!(!app.filter_mode);
    assert_eq!(app.focus, Focus::Projects);
    assert!(app.target_query.is_empty());
    assert_eq!(app.project_query, "project");

    app.handle_key_events(escape);
    assert!(app.filter_mode);
    assert_eq!(app.focus, Focus::Projects);
    assert_eq!(app.project_query, "project");

    app.handle_key_events(escape);
    assert!(!app.filter_mode);
    assert!(app.project_query.is_empty());
}

#[test]
fn refactor_input_navigation_boundaries() {
    let mut app = empty_app();
    app.targets = vec![target("first"), target("second")];
    app.filtered_targets = vec![1, 0];
    app.target_cursor = -1;

    app.select_next_target();
    assert_eq!(app.current_target().map(|target| target.name.as_str()), Some("second"));
    app.select_previous_target();
    assert_eq!(app.current_target().map(|target| target.name.as_str()), Some("first"));

    app.target_cursor = 7;
    app.filtered_targets.clear();
    app.select_next_target();
    assert_eq!(app.target_cursor, 7);

    app.ci_cursor = 7;
    app.filtered_ci_runs.clear();
    app.select_next_ci_run();
    assert_eq!(app.ci_cursor, -1);
}

#[test]
fn help_opens_and_closes_with_question_mark() {
    let mut app = empty_app();
    app.handle_key_events(key(KeyCode::Char('?')));
    assert!(app.show_help);
    app.handle_key_events(key(KeyCode::Char('j')));
    assert!(app.show_help);
    app.handle_key_events(key(KeyCode::Esc));
    assert!(!app.show_help);
}

#[test]
fn pending_g_jumps_to_bottom_and_top_of_targets() {
    let mut app = empty_app();
    app.focus = Focus::Targets;
    app.targets = vec![target("a"), target("b"), target("c")];
    app.filtered_targets = vec![0, 1, 2];
    app.target_cursor = 1;
    app.handle_key_events(key(KeyCode::Char('g')));
    assert!(app.pending_g);
    app.handle_key_events(key(KeyCode::Char('e')));
    assert!(!app.pending_g);
    assert_eq!(app.target_cursor, 2);
    app.handle_key_events(key(KeyCode::Char('g')));
    app.handle_key_events(key(KeyCode::Char('g')));
    assert_eq!(app.target_cursor, 0);
}

#[test]
fn focus_moves_right_and_left_between_panes() {
    let mut app = empty_app();
    assert_eq!(app.focus, Focus::Projects);
    app.handle_key_events(key(KeyCode::Char('l')));
    assert_eq!(app.focus, Focus::Targets);
    app.handle_key_events(key(KeyCode::Right));
    assert_eq!(app.focus, Focus::Targets);
    app.handle_key_events(key(KeyCode::Char('h')));
    assert_eq!(app.focus, Focus::Projects);
    app.handle_key_events(key(KeyCode::Left));
    assert_eq!(app.focus, Focus::Projects);
}

#[test]
fn add_project_dialog_opens_edits_and_cancels() {
    let mut app = empty_app();
    app.handle_key_events(key(KeyCode::Char('a')));
    assert!(app.creating_project);
    for c in "  new-app ".chars() {
        app.handle_key_events(key(KeyCode::Char(c)));
    }
    assert_eq!(app.create_project_input.value, "  new-app ");
    app.handle_key_events(key(KeyCode::Esc));
    assert!(!app.creating_project);
    assert!(app.create_project_input.value.is_empty());
}

#[test]
fn add_project_enter_asks_to_create_trimmed_name() {
    let mut app = empty_app();
    app.handle_key_events(key(KeyCode::Char('a')));
    for c in "  new-app ".chars() {
        app.handle_key_events(key(KeyCode::Char(c)));
    }
    match app.handle_key_events(key(KeyCode::Enter)) {
        KeyAction::CreateProject(creation) => {
            assert_eq!(creation.value, "new-app");
            assert_eq!(creation.path.as_deref(), Some("/__dashboard_test_projects__/new-app"));
            assert_eq!(creation.program, "cargo");
            assert_eq!(creation.args, vec!["new".to_owned(), "new-app".to_owned()]);
        }
        other => panic!("unexpected action {other:?}"),
    }
    assert!(app.creating_project);
}

#[test]
fn ctrl_c_asks_to_quit() {
    let mut app = empty_app();
    let action = app.handle_key_events(KeyEvent::new(KeyCode::Char('c'), KeyModifiers::new(CONTROL)));
    assert!(matches!(action, KeyAction::Quit));
}

#[test]
fn q_quits_outside_the_running_pane() {
    let mut app = empty_app();
    assert!(matches!(app.handle_key_events(key(KeyCode::Char('q'))), KeyAction::Quit));
}

#[test]
fn enter_launches_a_target_in_a_zellij_pane() {
    let mut app = App::new(
        "/w".to_owned(),
        Default::default(),
        Default::default(),
        vec![dashboard::projects::Project {
            name: "demo".into(),
            path: "/w/demo".into(),
            has_git_dir: false,
            is_workspace: false,
        }],
    );
    app.target_cache.insert("/w/demo".to_owned(), vec![target("app")]);
    app.refresh_targets();
    app.focus = Focus::Targets;
    match app.handle_key_events(key(KeyCode::Enter)) {
        KeyAction::Launch(l) => {
            assert_eq!(
                l.command,
                format!(
                    "zellij action new-pane --name '{}' --cwd '/w/demo' -- bash -lc \
                     'cargo --color always run -p '\\''fixture'\\'' --bin '\\''app'\\'''",
                    l.key
                )
            );
            assert_eq!(l.target_name, "app");
        }
        other => panic!("unexpected action {other:?}"),
    }
}

#[test]
fn a_git_url_is_cloned() {
    let mut app = empty_app();
    app.handle_key_events(key(KeyCode::Char('a')));
    for c in "git@github.com:owner/repo.git".chars() {
        app.handle_key_events(key(KeyCode::Char(c)));
    }
    match app.handle_key_events(key(KeyCode::Enter)) {
        KeyAction::CreateProject(creation) => {
            assert_eq!(creation.program, "git");
            assert_eq!(creation.args, vec!["clone".to_owned(), "git@github.com:owner/repo.git".to_owned()]);
            assert_eq!(creation.path.as_deref(), Some("/__dashboard_test_projects__/repo"));
        }
        other => panic!("unexpected action {other:?}"),
    }
}
