//! Launching targets, closing them, and the shell commands that open
//! projects and edit targets.
use crate::app::filters::statuses_len;
use crate::app::moves::selection_follows_running;
use crate::app::project_ops::project_opened;
use crate::app::{clamp_cursor, App, Focus, RunProfile, Target, TargetStatus, TargetStatusKind};
use crate::collections::views;
use crate::runtime::{runtime_key, shell_escape_arg, shell_escape_path, shell_quoted, target_runtime_key};
use crate::text::{path_join, path_join_exec, str_eq};
use vstd::prelude::*;
use vstd::string::*;

verus! {

/// What launching a target comes to.
#[derive(Debug)]
pub enum RunPlan {
    /// The target already runs; it is now selected.
    Reused,
    /// Targets of other kinds are not launched.
    Unsupported,
    /// Run the shell command `command`, which opens a new zellij pane named
    /// `key` in the project directory and runs the target's cargo command in
    /// it (see `pane_command`); the launch is known by `key`.
    Launch { command: String, key: String },
}

/// `parts` joined with `sep` between them (`[String]::join`).
pub open spec fn joined(parts: Seq<Seq<char>>, sep: Seq<char>) -> Seq<char>
    decreases parts.len(),
{
    if parts.len() == 0 {
        Seq::empty()
    } else if parts.len() == 1 {
        parts[0]
    } else {
        joined(parts.drop_last(), sep) + sep + parts.last()
    }
}

/// The cargo command that runs a target: `run` for binaries and examples,
/// `test` and `bench` for tests and benches, always for the target's package
/// and with its required features; `None` for other kinds.
pub open spec fn run_command(t: crate::app::TargetView) -> Option<Seq<char>> {
    let package_flag = " -p "@ + shell_quoted(t.package_name);
    let feature_flags = if t.required_features.len() == 0 {
        Seq::empty()
    } else {
        " --features "@ + shell_quoted(joined(t.required_features, ","@))
    };
    let name = shell_quoted(t.name);
    if t.kind == "bin"@ {
        Some("cargo --color always run"@ + package_flag + " --bin "@ + name + feature_flags)
    } else if t.kind == "example"@ {
        Some("cargo --color always run"@ + package_flag + " --example "@ + name + feature_flags)
    } else if t.kind == "test"@ {
        Some("cargo --color always test"@ + package_flag + " --test "@ + name + feature_flags)
    } else if t.kind == "bench"@ {
        Some("cargo --color always bench"@ + package_flag + " --bench "@ + name + feature_flags)
    } else {
        None
    }
}

/// The shell command that opens a new zellij pane named `key` in the
/// directory `path` and runs `command` there with `bash -lc`.
pub open spec fn pane_command(path: Seq<char>, key: Seq<char>, command: Seq<char>) -> Seq<char> {
    "zellij action new-pane --name "@ + shell_quoted(key) + " --cwd "@ + shell_quoted(path) + " -- bash -lc "@
        + shell_quoted(command)
}

/// Shell command that runs `command` in a new zellij pane (see
/// `pane_command`).
pub fn zellij_pane_command(path: &str, key: &str, command: &str) -> (r: String)
    ensures
        r@ == pane_command(path@, key@, command@),
{
    let mut r = lit("zellij action new-pane --name ");
    r.append(shell_escape_arg(key).as_str());
    r.append(" --cwd ");
    r.append(shell_escape_path(path).as_str());
    r.append(" -- bash -lc ");
    r.append(shell_escape_arg(command).as_str());
    r
}

/// The launched targets without the ones known by `key`.
pub open spec fn statuses_without_key(ss: Seq<TargetStatus>, key: Seq<char>) -> Seq<TargetStatus>
    decreases ss.len(),
{
    if ss.len() == 0 {
        ss
    } else if ss.last().key@ == key {
        statuses_without_key(ss.drop_last(), key)
    } else {
        statuses_without_key(ss.drop_last(), key).push(ss.last())
    }
}

/// After the selected running target was closed: it is dropped, the running
/// cursor kept inside the list, and with nothing left running a focused
/// running pane hands the focus to the CI runs when shown, else to the
/// projects.
pub open spec fn running_closed(pre: App, post: App, key: Option<Seq<char>>) -> bool {
    match pre.current_running_index() {
        None => post == pre && key is None,
        Some(r) => {
            let k = pre.target_statuses@[r].key@;
            let left = statuses_without_key(pre.target_statuses@, k);
            &&& key == Some(k)
            &&& post.target_statuses@ == left
            &&& post == (App {
                target_statuses: post.target_statuses,
                running_cursor: clamp_cursor(pre.running_cursor as int, left.len()) as isize,
                focus: if left.len() == 0 && pre.focus == Focus::RunningTargets {
                    if pre.ci_runs_shown() is Some {
                        Focus::CiRuns
                    } else {
                        Focus::Projects
                    }
                } else {
                    pre.focus
                },
                ..pre
            })
        },
    }
}

/// What planning the launch of `target` of the project at `path` does: with
/// `reuse` and a launched target of that project with the same name and kind,
/// the first such one is selected and the running pane focused; otherwise
/// nothing changes and the plan runs the target's cargo command in a new
/// zellij pane, or is `Unsupported` for a kind that is not run.
pub open spec fn run_planned(
    pre: App,
    post: App,
    path: Seq<char>,
    target: crate::app::TargetView,
    reuse: bool,
    plan: RunPlan,
) -> bool {
    let found = crate::app::moves::first_status_for(pre.target_statuses@, path, target.name, target.kind);
    if reuse && found is Some {
        &&& plan is Reused
        &&& post == (App {
            running_cursor: found->0 as isize,
            focus: Focus::RunningTargets,
            ..pre
        })
    } else {
        &&& post == pre
        &&& match plan {
            RunPlan::Reused => false,
            RunPlan::Unsupported => run_command(target) is None,
            RunPlan::Launch { command, key } => run_command(target) matches Some(c) && key@
                == runtime_key(path, target.kind, target.name) && command@ == pane_command(path, key@, c),
        }
    }
}

/// After a key was handled: a focused running pane makes the project and
/// target selection follow the selected running target.
pub open spec fn key_finished(pre: App, post: App) -> bool {
    if pre.focus == Focus::RunningTargets {
        selection_follows_running(pre, post)
    } else {
        post == pre
    }
}

/// After the launch of a target was recorded: it is listed as building and
/// selected, the running pane focused, the selection follows it, its project
/// is marked opened at `now`, and the selection follows it once more.
pub open spec fn launch_recorded(pre: App, post: App, status: TargetStatus, now: u64) -> bool {
    exists|m0: App, m1: App, m2: App|
        #![trigger selection_follows_running(m0, m1), project_opened(m1, m2, status.project_path@, now)]
        m0 == (App {
            target_statuses: m0.target_statuses,
            running_cursor: pre.target_statuses@.len() as isize,
            focus: Focus::RunningTargets,
            ..pre
        }) && m0.target_statuses@ == pre.target_statuses@.push(status) && selection_follows_running(
            m0,
            m1,
        ) && project_opened(m1, m2, status.project_path@, now) && selection_follows_running(m2, post)
}

fn lit(s: &str) -> (r: String)
    ensures
        r@ == s@,
{
    String::from_str(s)
}

/// `parts` joined with `sep` between them (see `joined`).
pub fn join_strings(parts: &Vec<String>, sep: &str) -> (r: String)
    ensures
        r@ == joined(views(parts@), sep@),
{
    let mut r = String::new();
    let mut i: usize = 0;
    while i < parts.len()
        invariant
            i <= parts@.len(),
            r@ == joined(views(parts@).take(i as int), sep@),
        decreases parts@.len() - i,
    {
        proof {
            assert(views(parts@).take(i + 1).drop_last() =~= views(parts@).take(i as int));
        }
        if i > 0 {
            r.append(sep);
        } else {
            assert(views(parts@).take(1) =~= seq![parts@[0]@]);
            assert(r@ =~= Seq::<char>::empty());
        }
        r.append(parts[i].as_str());
        i += 1;
    }
    assert(views(parts@).take(parts@.len() as int) =~= views(parts@));
    r
}

/// The cargo command that runs `target` (see `run_command`).
pub fn target_run_command(target: &Target) -> (r: Option<String>)
    ensures
        crate::text::opt_str(r) == run_command(target@),
{
    let mut package_flag = lit(" -p ");
    package_flag.append(shell_escape_arg(target.package_name.as_str()).as_str());
    let feature_flags = if target.required_features.len() == 0 {
        String::new()
    } else {
        let mut f = lit(" --features ");
        f.append(shell_escape_arg(join_strings(&target.required_features, ",").as_str()).as_str());
        f
    };
    let name = shell_escape_arg(target.name.as_str());
    let kind = target.kind.as_str();
    let (head, flag) = if str_eq(kind, "bin") {
        (lit("cargo --color always run"), lit(" --bin "))
    } else if str_eq(kind, "example") {
        (lit("cargo --color always run"), lit(" --example "))
    } else if str_eq(kind, "test") {
        (lit("cargo --color always test"), lit(" --test "))
    } else if str_eq(kind, "bench") {
        (lit("cargo --color always bench"), lit(" --bench "))
    } else {
        return None;
    };
    let mut command = head;
    command.append(package_flag.as_str());
    command.append(flag.as_str());
    command.append(name.as_str());
    command.append(feature_flags.as_str());
    proof {
        assert(command@ =~= head@ + package_flag@ + flag@ + name@ + feature_flags@);
    }
    Some(command)
}

/// The shell command that opens a project in a new zellij tab and returns
/// to the dashboard's tab.
pub open spec fn open_project_command_of(path: Seq<char>) -> Seq<char> {
    "zellij action new-tab && (cd "@ + shell_quoted(path)
        + " && env YAZI=false fish -c zj_open_project) >/dev/null 2>&1 & zellij action go-to-previous-tab >/dev/null 2>&1"@
}

/// Shell command that opens the project at `path` (see
/// `open_project_command_of`).
pub fn open_project_command(path: &str) -> (r: String)
    ensures
        r@ == open_project_command_of(path@),
{
    let mut r = lit("zellij action new-tab && (cd ");
    r.append(shell_escape_path(path).as_str());
    r.append(
        " && env YAZI=false fish -c zj_open_project) >/dev/null 2>&1 & zellij action go-to-previous-tab >/dev/null 2>&1",
    );
    r
}

/// The shell command that edits a target's source with Helix in a floating
/// zellij pane.
pub open spec fn edit_command_of(project_path: Seq<char>, target_path: Seq<char>) -> Seq<char> {
    "zellij action new-pane -f --close-on-exit --height 50 --width 140 --cwd "@ + shell_quoted(
        project_path,
    ) + " -- hx "@ + shell_quoted(path_join(project_path, target_path))
}

impl App {
    /// The command that edits the selected target, when a project and a
    /// target are selected (see `edit_command_of`).
    pub fn edit_target_command(&self) -> (r: Option<String>)
        ensures
            crate::text::opt_str(r) == match (self.current_project_index(), self.current_target_index()) {
                (Some(p), Some(t)) => Some(
                    edit_command_of(self.projects@[p].path@, self.targets@[t].path@),
                ),
                _ => None,
            },
    {
        let project = match self.current_project() {
            Some(p) => p,
            None => return None,
        };
        let target = match self.current_target() {
            Some(t) => t,
            None => return None,
        };
        let target_path = path_join_exec(project.path.as_str(), target.path.as_str());
        let mut r = lit("zellij action new-pane -f --close-on-exit --height 50 --width 140 --cwd ");
        r.append(shell_escape_path(project.path.as_str()).as_str());
        r.append(" -- hx ");
        r.append(shell_escape_path(target_path.as_str()).as_str());
        Some(r)
    }

    /// Closes the selected running target (see `running_closed`); returns
    /// the key of the session to stop.
    pub fn close_selected_running_target(&mut self) -> (key: Option<String>)
        ensures
            running_closed(*old(self), *final(self), crate::text::opt_str(key)),
    {
        let key = match self.current_running_target_status() {
            Some(s) => s.key.clone(),
            None => return None,
        };
        let ghost pre = *self;
        let mut left: Vec<TargetStatus> = Vec::new();
        let mut i: usize = 0;
        while i < self.target_statuses.len()
            invariant
                i <= self.target_statuses@.len(),
                self.target_statuses@ == pre.target_statuses@,
                left@ == statuses_without_key(pre.target_statuses@.take(i as int), key@),
            decreases self.target_statuses@.len() - i,
        {
            proof {
                assert(pre.target_statuses@.take(i + 1).drop_last() =~= pre.target_statuses@.take(i as int));
            }
            if !str_eq(self.target_statuses[i].key.as_str(), key.as_str()) {
                left.push(self.target_statuses[i].clone());
            }
            i += 1;
        }
        proof {
            assert(pre.target_statuses@.take(pre.target_statuses@.len() as int) =~= pre.target_statuses@);
        }
        let count = statuses_len(&left);
        let shown = self.project_ci_runs().is_some();
        self.target_statuses = left;
        self.running_cursor = if count == 0 {
            -1
        } else if self.running_cursor < 0 {
            0
        } else if self.running_cursor as usize >= count {
            (count - 1) as isize
        } else {
            self.running_cursor
        };
        if count == 0 && self.focus == Focus::RunningTargets {
            self.focus = if shown {
                Focus::CiRuns
            } else {
                Focus::Projects
            };
        }
        Some(key)
    }

    /// Plans the launch of `target` of the project at `project_path`. When
    /// `reuse_existing`, a target of that project with the same name and kind
    /// that was launched before is selected instead.
    pub fn plan_target_run(&mut self, project_path: &str, target: &Target, reuse_existing: bool) -> (plan: RunPlan)
        ensures
            run_planned(*old(self), *final(self), project_path@, target@, reuse_existing, plan),
    {
        if reuse_existing {
            let project = crate::projects::Project {
                name: String::new(),
                path: String::from_str(project_path),
                has_git_dir: false,
                is_workspace: false,
            };
            let _n = statuses_len(&self.target_statuses);
            match self.target_status_index_for(&project, target) {
                Some(i) => {
                    self.running_cursor = i as isize;
                    self.focus = Focus::RunningTargets;
                    return RunPlan::Reused;
                },
                None => {},
            }
        }
        let key = target_runtime_key(project_path, target.kind.as_str(), target.name.as_str());
        match target_run_command(target) {
            Some(cargo) => RunPlan::Launch {
                command: zellij_pane_command(project_path, key.as_str(), cargo.as_str()),
                key,
            },
            None => RunPlan::Unsupported,
        }
    }

    /// Index of the first launched target of `project` with the kind and
    /// name of `target`.
    pub fn target_status_index_for(&self, project: &crate::projects::Project, target: &Target) -> (r: Option<usize>)
        ensures
            r matches Some(i) ==> crate::app::moves::first_status_for(self.target_statuses@, project.path@, target.name@, target.kind@) == Some(i as int) && i < self.target_statuses@.len(),
            r is None ==> crate::app::moves::first_status_for(self.target_statuses@, project.path@, target.name@, target.kind@) is None,
    {
        let mut i: usize = 0;
        while i < self.target_statuses.len()
            invariant
                i <= self.target_statuses@.len(),
                forall|j: int| 0 <= j < i ==> !crate::app::moves::status_is_for(
                    #[trigger] self.target_statuses@[j],
                    project.path@,
                    target.name@,
                    target.kind@,
                ),
            decreases self.target_statuses@.len() - i,
        {
            let s = &self.target_statuses[i];
            if str_eq(s.project_path.as_str(), project.path.as_str()) && str_eq(
                s.target_name.as_str(),
                target.name.as_str(),
            ) && str_eq(s.target_kind.as_str(), target.kind.as_str()) {
                proof {
                    crate::app::moves::lemma_first_status_for(self.target_statuses@, project.path@, target.name@, target.kind@, i as int);
                }
                return Some(i);
            }
            i += 1;
        }
        proof {
            crate::app::moves::lemma_first_status_none(self.target_statuses@, project.path@, target.name@, target.kind@);
        }
        None
    }

    /// Lets the selection follow the selected running target when the
    /// running pane has the focus; the last step of handling a key.
    pub fn after_key(&mut self)
        requires
            old(self).matchers_ok(),
        ensures
            final(self).matchers_ok(),
            key_finished(*old(self), *final(self)),
    {
        if self.focus == Focus::RunningTargets {
            self.sync_project_selection_to_running_target();
        }
    }

    /// Records a launched target (see `launch_recorded`): `pid` is its
    /// process, `clock_ms` the dashboard's monotonic clock in milliseconds and
    /// `now` the time in seconds since the Unix epoch.
    pub fn record_target_launch(
        &mut self,
        project_name: String,
        project_path: String,
        target_name: String,
        target_kind: String,
        key: String,
        pid: Option<u32>,
        clock_ms: u64,
        now: u64,
    )
        requires
            old(self).matchers_ok(),
        ensures
            final(self).matchers_ok(),
            exists|s: TargetStatus|
                #![trigger launch_recorded(*old(self), *final(self), s, now)]
                s.kind == TargetStatusKind::Building && s.project_name@ == project_name@
                    && s.project_path@ == project_path@ && s.target_name@ == target_name@
                    && s.target_kind@ == target_kind@ && s.key@ == key@ && s.profile
                    == RunProfile::Debug && s.pid == pid && s.started_ms == Some(clock_ms) && launch_recorded(*old(self), *final(self), s, now),
    {
        let _n = statuses_len(&self.target_statuses);
        let path = project_path.clone();
        let status = TargetStatus {
            kind: TargetStatusKind::Building,
            project_name,
            project_path,
            target_name,
            target_kind,
            key,
            profile: RunProfile::Debug,
            pid,
            started_ms: Some(clock_ms),
        };
        let ghost s = status;
        self.target_statuses.push(status);
        let count = statuses_len(&self.target_statuses);
        self.running_cursor = count as isize - 1;
        self.focus = Focus::RunningTargets;
        let ghost m0 = *self;
        self.sync_project_selection_to_running_target();
        let ghost m1 = *self;
        self.mark_project_opened(path.as_str(), now);
        let ghost m2 = *self;
        self.after_key();
        assert(selection_follows_running(m0, m1) && project_opened(m1, m2, s.project_path@, now));
        assert(launch_recorded(*old(self), *self, s, now));
    }
}

} // verus!
