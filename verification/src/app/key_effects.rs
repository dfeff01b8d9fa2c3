//! What the keys of the normal mode do: moving the focus and the cursors,
//! starting a search, and the actions of Enter and `e`.
use crate::app::keys::{KeyAction, Launch, Rerun};
use crate::app::moves::{next_cursor, previous_cursor, selection_follows_running};
use crate::app::project_ops::project_opened;
use crate::app::running::{key_finished, open_project_command};
use crate::app::filters::{indices_len, statuses_len};
use crate::app::running::{
    edit_command_of, open_project_command_of, pane_command, run_command, run_planned, running_closed, RunPlan,
};
use crate::runtime::runtime_key;
use crate::app::{selected_index, targets_refreshed, App, Focus, Target, TargetStatus, TargetView};
use crate::providers::CiRun;
use crate::text::str_eq;
use vstd::prelude::*;

verus! {

/// A cursor that is unset moves to the first row.
pub open spec fn at_least_first(c: isize) -> isize {
    if c < 0 {
        0
    } else {
        c
    }
}

/// The running pane takes the focus, its cursor on a row.
pub open spec fn running_focused(pre: App) -> App {
    App { running_cursor: at_least_first(pre.running_cursor), focus: Focus::RunningTargets, ..pre }
}

/// The CI pane takes the focus, its cursor on a row.
pub open spec fn ci_focused(pre: App) -> App {
    App { ci_cursor: at_least_first(pre.ci_cursor), focus: Focus::CiRuns, ..pre }
}

/// Right or `l`: from the CI runs to the running targets (or the projects
/// when nothing runs), from the running targets to the projects, from the
/// projects to the targets.
pub open spec fn focus_moved_right(pre: App) -> App {
    match pre.focus {
        Focus::CiRuns => if pre.target_statuses@.len() > 0 {
            running_focused(pre)
        } else {
            App { focus: Focus::Projects, ..pre }
        },
        Focus::RunningTargets => App { focus: Focus::Projects, ..pre },
        Focus::Projects => App { focus: Focus::Targets, ..pre },
        Focus::Targets => pre,
    }
}

/// Left or `h`: from the projects to the running targets when something
/// runs, else to the CI runs when shown; from the running targets to the CI
/// runs when shown; from the targets to the projects.
pub open spec fn focus_moved_left(pre: App) -> App {
    match pre.focus {
        Focus::Projects => if pre.target_statuses@.len() > 0 {
            running_focused(pre)
        } else if pre.ci_runs_shown() is Some {
            ci_focused(pre)
        } else {
            pre
        },
        Focus::RunningTargets => if pre.ci_runs_shown() is Some {
            ci_focused(pre)
        } else {
            pre
        },
        Focus::CiRuns => pre,
        Focus::Targets => App { focus: Focus::Projects, ..pre },
    }
}

/// The focused pane's cursor moved down (`down`) or up, wrapping; projects
/// refresh the targets and running targets move the selection along.
pub open spec fn selection_moved(pre: App, post: App, down: bool) -> bool {
    match pre.focus {
        Focus::Projects => {
            let len = pre.filtered_projects@.len();
            if len == 0 {
                post == pre
            } else {
                targets_refreshed(
                    App {
                        cursor: (if down {
                            next_cursor(pre.cursor as int, len)
                        } else {
                            previous_cursor(pre.cursor as int, len)
                        }) as isize,
                        ..pre
                    },
                    post,
                )
            }
        },
        Focus::RunningTargets => {
            let len = pre.target_statuses@.len();
            if len == 0 {
                post == (App { running_cursor: -1isize, ..pre })
            } else {
                selection_follows_running(
                    App {
                        running_cursor: (if down {
                            next_cursor(pre.running_cursor as int, len)
                        } else {
                            previous_cursor(pre.running_cursor as int, len)
                        }) as isize,
                        ..pre
                    },
                    post,
                )
            }
        },
        Focus::CiRuns => {
            let len = pre.filtered_ci_runs@.len();
            post == (App {
                ci_cursor: if len == 0 {
                    -1isize
                } else if down {
                    next_cursor(pre.ci_cursor as int, len) as isize
                } else {
                    previous_cursor(pre.ci_cursor as int, len) as isize
                },
                ..pre
            })
        },
        Focus::Targets => {
            let len = pre.filtered_targets@.len();
            post == (App {
                target_cursor: if len == 0 {
                    pre.target_cursor
                } else if down {
                    next_cursor(pre.target_cursor as int, len) as isize
                } else {
                    previous_cursor(pre.target_cursor as int, len) as isize
                },
                ..pre
            })
        },
    }
}

/// `/`: search mode for the projects (cursor on top, targets refreshed) or
/// the targets (cursor on top); the other panes have no search.
pub open spec fn search_started(pre: App, post: App) -> bool {
    match pre.focus {
        Focus::Projects => targets_refreshed(
            App {
                filter_mode: true,
                cursor: if pre.filtered_projects@.len() == 0 {
                    -1isize
                } else {
                    0isize
                },
                ..pre
            },
            post,
        ),
        Focus::Targets => post == (App {
            filter_mode: true,
            target_cursor: if pre.filtered_targets@.len() == 0 {
                -1isize
            } else {
                0isize
            },
            ..pre
        }),
        _ => post == pre,
    }
}

/// The CI run under the CI cursor.
pub open spec fn shown_ci_run(app: App) -> Option<CiRun> {
    match app.ci_runs_shown() {
        Some(ci) => match selected_index(app.ci_cursor as int, app.filtered_ci_runs@, ci.runs@.len()) {
            Some(i) => Some(ci.runs@[i]),
            None => None,
        },
        None => None,
    }
}

/// Index of the first target with this name and kind.
pub open spec fn first_target(ts: Seq<Target>, name: Seq<char>, kind: Seq<char>) -> Option<int>
    decreases ts.len(),
{
    if ts.len() == 0 {
        None
    } else {
        match first_target(ts.drop_last(), name, kind) {
            Some(i) => Some(i),
            None => if ts.last().name@ == name && ts.last().kind@ == kind {
                Some(ts.len() - 1)
            } else {
                None
            },
        }
    }
}

/// `l` describes launching `target` of the project `name` at `path`: its
/// cargo command `command` runs in a new zellij pane known by `key` (see
/// `pane_command`).
pub open spec fn launch_of(l: Launch, name: Seq<char>, path: Seq<char>, target: TargetView, command: Seq<char>, key: Seq<char>) -> bool {
    &&& l.project_name@ == name
    &&& l.project_path@ == path
    &&& l.target_name@ == target.name
    &&& l.target_kind@ == target.kind
    &&& l.command@ == pane_command(path, key, command)
    &&& l.key@ == key
}

/// Running `target` of project `name` at `path` was planned (see
/// `run_planned`); a launch is handed to the caller.
pub open spec fn run_started(
    pre: App,
    post: App,
    name: Seq<char>,
    path: Seq<char>,
    target: TargetView,
    reuse: bool,
    action: KeyAction,
) -> bool {
    exists|plan: RunPlan|
        #[trigger] run_planned(pre, post, path, target, reuse, plan) && match plan {
            RunPlan::Launch { command, key } => (action matches KeyAction::Launch(l)
                && l.project_name@ == name && l.project_path@ == path && l.target_name@ == target.name
                && l.target_kind@ == target.kind && l.command@ == command@ && l.key@ == key@),
            _ => action is Nothing,
        }
}

/// Enter on the targets: the selected target of the selected project is
/// run, or the running one of it selected.
pub open spec fn target_run_started(pre: App, post: App, action: KeyAction) -> bool {
    match (pre.current_project_index(), pre.current_target_index()) {
        (Some(p), Some(t)) => run_started(
            pre,
            post,
            pre.projects@[p].name@,
            pre.projects@[p].path@,
            pre.targets@[t]@,
            true,
            action,
        ),
        _ => post == pre && action is Nothing,
    }
}

/// After the selected running target `st` was closed: its target is looked
/// up in the cached targets of its project; one of a kind that runs is
/// launched again, one of another kind just closed; when none is found
/// there, the caller is asked to look it up.
pub open spec fn rerun_after_close(closed: App, post: App, st: TargetStatus, action: KeyAction) -> bool {
    let path = st.project_path@;
    let cached = if closed.target_cache@.contains_key(path) {
        match first_target(closed.target_cache@[path]@, st.target_name@, st.target_kind@) {
            Some(i) => Some(closed.target_cache@[path]@[i]@),
            None => None,
        }
    } else {
        None
    };
    &&& post == closed
    &&& match cached {
        Some(t) => match run_command(t) {
            Some(command) => (action matches KeyAction::Relaunch { closed: ck, launch } && ck@ == st.key@
                && launch_of(launch, st.project_name@, path, t, command, runtime_key(path, t.kind, t.name))),
            None => (action matches KeyAction::CloseSession { key } && key@ == st.key@),
        },
        None => (action matches KeyAction::LookUpTargets { closed: ck, rerun } && ck@ == st.key@
            && rerun.project_name@ == st.project_name@ && rerun.project_path@ == path && rerun.target_name@
            == st.target_name@ && rerun.target_kind@ == st.target_kind@),
    }
}

/// Enter on the running targets: the selected one is closed (see
/// `running_closed`) and run again (see `rerun_after_close`).
pub open spec fn rerun_started(pre: App, post: App, action: KeyAction) -> bool {
    match pre.current_running_index() {
        None => post == pre && action is Nothing,
        Some(r) => {
            let st = pre.target_statuses@[r];
            exists|closed: App|
                #[trigger] running_closed(pre, closed, Some(st.key@)) && rerun_after_close(
                    closed,
                    post,
                    st,
                    action,
                )
        },
    }
}

/// Enter on the projects: the selected project is to be opened.
pub open spec fn project_open_asked(pre: App, action: KeyAction) -> bool {
    match pre.current_project_path() {
        Some(p) => (action matches KeyAction::OpenProject { path, command } && path@ == p && command@
            == open_project_command_of(p)),
        None => action is Nothing,
    }
}

/// Enter on the CI runs: the selected run is to be opened.
pub open spec fn ci_run_open_asked(pre: App, action: KeyAction) -> bool {
    match shown_ci_run(pre) {
        Some(run) => (action matches KeyAction::OpenCiRun { url } && url@ == run.url@),
        None => action is Nothing,
    }
}

/// `e` on the targets: the selected target's source is to be edited.
pub open spec fn target_edit_asked(pre: App, action: KeyAction) -> bool {
    match (pre.current_project_index(), pre.current_target_index()) {
        (Some(p), Some(t)) => (action matches KeyAction::EditTarget { command } && command@ == edit_command_of(
            pre.projects@[p].path@,
            pre.targets@[t].path@,
        )),
        _ => action is Nothing,
    }
}

/// The index of the first target with this name and kind.
pub fn find_target(ts: &Vec<Target>, name: &str, kind: &str) -> (r: Option<usize>)
    ensures
        r matches Some(i) ==> first_target(ts@, name@, kind@) == Some(i as int) && i < ts@.len(),
        r is None ==> first_target(ts@, name@, kind@) is None,
{
    let mut i: usize = 0;
    while i < ts.len()
        invariant
            i <= ts@.len(),
            first_target(ts@.take(i as int), name@, kind@) is None,
        decreases ts@.len() - i,
    {
        proof {
            assert(ts@.take(i + 1).drop_last() =~= ts@.take(i as int));
        }
        if str_eq(ts[i].name.as_str(), name) && str_eq(ts[i].kind.as_str(), kind) {
            proof {
                lemma_first_target_prefix(ts@, name@, kind@, i + 1);
            }
            return Some(i);
        }
        i += 1;
    }
    assert(ts@.take(ts@.len() as int) =~= ts@);
    None
}

proof fn lemma_first_target_prefix(ts: Seq<Target>, name: Seq<char>, kind: Seq<char>, k: int)
    requires
        0 <= k <= ts.len(),
        first_target(ts.take(k), name, kind) is Some,
    ensures
        first_target(ts, name, kind) == first_target(ts.take(k), name, kind),
    decreases ts.len() - k,
{
    if k < ts.len() {
        assert(ts.take(k + 1).drop_last() =~= ts.take(k));
        lemma_first_target_prefix(ts, name, kind, k + 1);
    } else {
        assert(ts.take(k) =~= ts);
    }
}

/// J or Down on the running targets: to the CI runs when shown, else the
/// next running target.
pub open spec fn running_down(pre: App, post: App) -> bool {
    if pre.ci_runs_shown() is Some {
        post == ci_focused(pre)
    } else {
        selection_moved(pre, post, true)
    }
}

/// K or Up on the CI runs: to the running targets when something runs,
/// else the previous CI run.
pub open spec fn ci_up(pre: App, post: App) -> bool {
    if pre.target_statuses@.len() > 0 {
        post == running_focused(pre)
    } else {
        selection_moved(pre, post, false)
    }
}

impl App {
    pub(crate) fn key_focus_right(&mut self)
        ensures
            *final(self) == focus_moved_right(*old(self)),
    {
        match self.focus {
            Focus::CiRuns => {
                if statuses_len(&self.target_statuses) > 0 {
                    if self.running_cursor < 0 {
                        self.running_cursor = 0;
                    }
                    self.focus = Focus::RunningTargets;
                } else {
                    self.focus = Focus::Projects;
                }
            },
            Focus::RunningTargets => {
                self.focus = Focus::Projects;
            },
            Focus::Projects => {
                self.focus = Focus::Targets;
            },
            Focus::Targets => {},
        }
    }

    pub(crate) fn key_focus_left(&mut self)
        ensures
            *final(self) == focus_moved_left(*old(self)),
    {
        let running = statuses_len(&self.target_statuses) > 0;
        let shown = self.project_ci_runs().is_some();
        match self.focus {
            Focus::Projects => {
                if running {
                    if self.running_cursor < 0 {
                        self.running_cursor = 0;
                    }
                    self.focus = Focus::RunningTargets;
                } else if shown {
                    if self.ci_cursor < 0 {
                        self.ci_cursor = 0;
                    }
                    self.focus = Focus::CiRuns;
                }
            },
            Focus::RunningTargets => {
                if shown {
                    if self.ci_cursor < 0 {
                        self.ci_cursor = 0;
                    }
                    self.focus = Focus::CiRuns;
                }
            },
            Focus::CiRuns => {},
            Focus::Targets => {
                self.focus = Focus::Projects;
            },
        }
    }

    /// Moves the focused pane's cursor down (`down`) or up (see
    /// `selection_moved`).
    pub fn move_selection(&mut self, down: bool)
        requires
            old(self).matchers_ok(),
        ensures
            final(self).matchers_ok(),
            selection_moved(*old(self), *final(self), down),
    {
        match self.focus {
            Focus::Projects => if down {
                self.select_next_project()
            } else {
                self.select_previous_project()
            },
            Focus::RunningTargets => if down {
                self.select_next_running_target()
            } else {
                self.select_previous_running_target()
            },
            Focus::CiRuns => if down {
                self.select_next_ci_run()
            } else {
                self.select_previous_ci_run()
            },
            Focus::Targets => if down {
                self.select_next_target()
            } else {
                self.select_previous_target()
            },
        }
    }

    pub(crate) fn key_running_down(&mut self)
        requires
            old(self).matchers_ok(),
            old(self).focus == Focus::RunningTargets,
        ensures
            final(self).matchers_ok(),
            running_down(*old(self), *final(self)),
    {
        if self.project_ci_runs().is_some() {
            if self.ci_cursor < 0 {
                self.ci_cursor = 0;
            }
            self.focus = Focus::CiRuns;
        } else {
            self.move_selection(true);
        }
    }

    pub(crate) fn key_ci_up(&mut self)
        requires
            old(self).matchers_ok(),
            old(self).focus == Focus::CiRuns,
        ensures
            final(self).matchers_ok(),
            ci_up(*old(self), *final(self)),
    {
        if statuses_len(&self.target_statuses) > 0 {
            if self.running_cursor < 0 {
                self.running_cursor = 0;
            }
            self.focus = Focus::RunningTargets;
        } else {
            self.move_selection(false);
        }
    }

    /// Enters search mode for the focused pane (see `search_started`).
    pub fn start_search(&mut self)
        requires
            old(self).matchers_ok(),
        ensures
            final(self).matchers_ok(),
            search_started(*old(self), *final(self)),
    {
        match self.focus {
            Focus::Projects => {
                self.filter_mode = true;
                self.cursor = if indices_len(&self.filtered_projects) == 0 {
                    -1
                } else {
                    0
                };
                self.refresh_targets();
            },
            Focus::Targets => {
                self.filter_mode = true;
                self.target_cursor = if indices_len(&self.filtered_targets) == 0 {
                    -1
                } else {
                    0
                };
            },
            _ => {},
        }
    }

    /// Asks to open the selected project (see `project_open_asked`); the
    /// caller spawns the command and then calls `finish_open_project`.
    pub fn open_selected_project(&self) -> (action: KeyAction)
        ensures
            project_open_asked(*self, action),
    {
        match self.current_project() {
            Some(p) => KeyAction::OpenProject {
                path: p.path.clone(),
                command: open_project_command(p.path.as_str()),
            },
            None => KeyAction::Nothing,
        }
    }

    /// Ends opening the project at `path`, whose command `OpenProject` asked
    /// the caller to spawn: when `spawned`, the project is marked opened at
    /// `now` (see `project_opened`), so that it is listed first and the
    /// recent projects are marked to be saved; otherwise nothing changes.
    pub fn finish_open_project(&mut self, path: &str, spawned: bool, now: u64)
        requires
            old(self).matchers_ok(),
        ensures
            final(self).matchers_ok(),
            spawned ==> project_opened(*old(self), *final(self), path@, now),
            !spawned ==> *final(self) == *old(self),
    {
        if spawned {
            self.mark_project_opened(path, now);
        }
    }

    /// Asks to open the selected CI run (see `ci_run_open_asked`).
    pub fn open_selected_ci_run(&self) -> (action: KeyAction)
        ensures
            ci_run_open_asked(*self, action),
    {
        match self.current_ci_run() {
            Some(run) => KeyAction::OpenCiRun { url: run.url.clone() },
            None => KeyAction::Nothing,
        }
    }

    /// Asks to edit the selected target (see `target_edit_asked`).
    pub fn edit_selected_target(&self) -> (action: KeyAction)
        ensures
            target_edit_asked(*self, action),
    {
        match self.edit_target_command() {
            Some(command) => KeyAction::EditTarget { command },
            None => KeyAction::Nothing,
        }
    }

    fn start_target_run(&mut self, name: String, path: String, target: &Target, reuse: bool) -> (action: KeyAction)
        ensures
            run_started(*old(self), *final(self), name@, path@, target@, reuse, action),
    {
        let plan = self.plan_target_run(path.as_str(), target, reuse);
        let ghost p = plan;
        let action = match plan {
            RunPlan::Launch { command, key } => KeyAction::Launch(
                Launch {
                    project_name: name,
                    project_path: path,
                    target_name: target.name.clone(),
                    target_kind: target.kind.clone(),
                    command,
                    key,
                },
            ),
            _ => KeyAction::Nothing,
        };
        assert(run_planned(*old(self), *self, path@, target@, reuse, p));
        action
    }

    /// Runs the selected target of the selected project, or selects its
    /// running one (see `target_run_started`).
    pub fn run_selected_target(&mut self) -> (action: KeyAction)
        ensures
            target_run_started(*old(self), *final(self), action),
    {
        let (name, path) = match self.current_project() {
            Some(p) => (p.name.clone(), p.path.clone()),
            None => return KeyAction::Nothing,
        };
        let target = match self.current_target() {
            Some(t) => t.clone(),
            None => return KeyAction::Nothing,
        };
        self.start_target_run(name, path, &target, true)
    }

    /// Closes the selected running target and runs it again (see
    /// `rerun_started`).
    pub fn rerun_selected_running_target(&mut self) -> (action: KeyAction)
        ensures
            rerun_started(*old(self), *final(self), action),
    {
        let status = match self.current_running_target_status() {
            Some(s) => s.clone(),
            None => return KeyAction::Nothing,
        };
        let closed = match self.close_selected_running_target() {
            Some(k) => k,
            None => return KeyAction::Nothing,
        };
        let ghost mid = *self;
        let cached = match self.target_cache.get(status.project_path.as_str()) {
            Some(ts) => match find_target(ts, status.target_name.as_str(), status.target_kind.as_str()) {
                Some(i) => Some(ts[i].clone()),
                None => None,
            },
            None => None,
        };
        match cached {
            Some(t) => {
                let plan = self.plan_target_run(status.project_path.as_str(), &t, false);
                let ghost p = plan;
                let action = match plan {
                    RunPlan::Launch { command, key } => KeyAction::Relaunch {
                        closed,
                        launch: Launch {
                            project_name: status.project_name,
                            project_path: status.project_path,
                            target_name: t.name.clone(),
                            target_kind: t.kind.clone(),
                            command,
                            key,
                        },
                    },
                    _ => KeyAction::CloseSession { key: closed },
                };
                assert(run_planned(mid, *self, status.project_path@, t@, false, p));
                action
            },
            None => KeyAction::LookUpTargets {
                closed,
                rerun: Rerun {
                    project_name: status.project_name,
                    project_path: status.project_path,
                    target_name: status.target_name,
                    target_kind: status.target_kind,
                },
            },
        }
    }

    /// Runs again, with the targets found for its project, a launched
    /// target whose targets were not cached: its target is the first with
    /// its name and kind. Returns the launch, if the target was found and is
    /// of a kind that runs; otherwise the key is done.
    pub fn rerun_with_targets(&mut self, rerun: &Rerun, targets: &Vec<Target>) -> (launch: Option<Launch>)
        requires
            old(self).matchers_ok(),
        ensures
            final(self).matchers_ok(),
            match first_target(targets@, rerun.target_name@, rerun.target_kind@) {
                None => key_finished(*old(self), *final(self)) && launch is None,
                Some(i) => {
                    let t = targets@[i]@;
                    match run_command(t) {
                        Some(command) => *final(self) == *old(self) && (launch matches Some(l) && launch_of(
                            l,
                            rerun.project_name@,
                            rerun.project_path@,
                            t,
                            command,
                            runtime_key(rerun.project_path@, t.kind, t.name),
                        )),
                        None => key_finished(*old(self), *final(self)) && launch is None,
                    }
                },
            },
    {
        let i = match find_target(targets, rerun.target_name.as_str(), rerun.target_kind.as_str()) {
            Some(i) => i,
            None => {
                self.after_key();
                return None;
            },
        };
        let t = &targets[i];
        let plan = self.plan_target_run(rerun.project_path.as_str(), t, false);
        let ghost p = plan;
        let ghost mid = *self;
        let launch = match plan {
            RunPlan::Launch { command, key } => Some(
                Launch {
                    project_name: rerun.project_name.clone(),
                    project_path: rerun.project_path.clone(),
                    target_name: t.name.clone(),
                    target_kind: t.kind.clone(),
                    command,
                    key,
                },
            ),
            _ => {
                self.after_key();
                None
            },
        };
        launch
    }
}

} // verus!
