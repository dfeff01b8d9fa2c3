//! The dashboard's state: projects, their targets and CI runs, the caches
//! filled by background work, the three cursors, focus and search modes.
use crate::collections::{views, PathMap, PathSet};
use crate::persistence::{BookmarkedProjects, RecentProjects};
use crate::projects::Project;
use crate::providers::{CiRun, CiRunsData, LanguagesData, ProjectMetadataSummary};
use crate::text::{ascii_lower, contains_seq};
use vstd::prelude::*;

pub mod background;
pub mod editing;
pub mod filters;
pub mod key_effects;
pub mod keys;
pub mod matcher;
pub mod moves;
pub mod project_ops;
pub mod running;
pub mod sessions;

use matcher::{new_matcher, SearchMatcher};
use filters::{project_listing_ok, target_listing_ok};

verus! {

/// Number of search columns of projects: everything, name, path.
pub const PROJECT_SEARCH_COLUMNS: usize = 3;

/// Number of search columns of targets: everything, kind, name, path.
pub const TARGET_SEARCH_COLUMNS: usize = 4;

/// The pane that keys act on.
#[derive(Debug, Clone, Copy, PartialEq, Eq, Structural)]
pub enum Focus {
    Projects,
    RunningTargets,
    CiRuns,
    Targets,
}

/// A Cargo binary, example, test or bench of a project.
#[derive(Debug)]
pub struct Target {
    pub package_name: String,
    pub kind: String,
    pub name: String,
    pub path: String,
    pub description: Option<String>,
    pub required_features: Vec<String>,
}

/// The plain content of a target.
pub struct TargetView {
    pub package_name: Seq<char>,
    pub kind: Seq<char>,
    pub name: Seq<char>,
    pub path: Seq<char>,
    pub description: Option<Seq<char>>,
    pub required_features: Seq<Seq<char>>,
}

impl View for Target {
    type V = TargetView;

    open spec fn view(&self) -> TargetView {
        TargetView {
            package_name: self.package_name@,
            kind: self.kind@,
            name: self.name@,
            path: self.path@,
            description: match self.description {
                Some(d) => Some(d@),
                None => None,
            },
            required_features: views(self.required_features@),
        }
    }
}

/// The content of each target.
pub open spec fn target_views(ts: Seq<Target>) -> Seq<TargetView> {
    ts.map_values(|t: Target| t@)
}

impl Clone for Target {
    fn clone(&self) -> (r: Self)
        ensures
            r@ == self@,
    {
        let description = match &self.description {
            Some(d) => Some(d.clone()),
            None => None,
        };
        let features = self.required_features.clone();
        proof {
            assert(features@ =~= self.required_features@);
        }
        Target {
            package_name: self.package_name.clone(),
            kind: self.kind.clone(),
            name: self.name.clone(),
            path: self.path.clone(),
            description,
            required_features: features,
        }
    }
}

/// Where a launched target stands.
#[derive(Debug, Clone, Copy, PartialEq, Eq, Structural)]
pub enum TargetStatusKind {
    Building,
    Running,
    Failed,
}

/// Cargo profile of a launched target.
#[derive(Debug, Clone, Copy, PartialEq, Eq, Structural)]
pub enum RunProfile {
    Debug,
    Release,
}

/// A target that the dashboard launched.
#[derive(Debug)]
pub struct TargetStatus {
    pub kind: TargetStatusKind,
    pub project_name: String,
    pub project_path: String,
    pub target_name: String,
    pub target_kind: String,
    pub key: String,
    pub profile: RunProfile,
    pub pid: Option<u32>,
    /// When it was launched, in milliseconds of the dashboard's monotonic
    /// clock.
    pub started_ms: Option<u64>,
}

impl Clone for TargetStatus {
    fn clone(&self) -> (r: Self)
        ensures
            r == *self,
    {
        TargetStatus {
            kind: self.kind,
            project_name: self.project_name.clone(),
            project_path: self.project_path.clone(),
            target_name: self.target_name.clone(),
            target_kind: self.target_kind.clone(),
            key: self.key.clone(),
            profile: self.profile,
            pid: self.pid,
            started_ms: self.started_ms,
        }
    }
}

/// What background work reports back for a project path.
#[derive(Debug)]
pub enum BackgroundResult {
    Metadata(String, ProjectMetadataSummary),
    GitStatus(String, String),
    Size(String, u64),
    CiRuns(String, Option<CiRunsData>),
    Languages(String, Option<LanguagesData>),
    Targets(String, Vec<Target>),
    ProjectCreated(Option<String>),
    ProjectCleaned(String),
}

/// Kinds of background work.
#[derive(Debug, Clone, Copy, PartialEq, Eq, Structural)]
pub enum RequestKind {
    Metadata,
    GitStatus,
    Size,
    CiRuns,
    Languages,
    Targets,
}

/// Background work that the dashboard asks for a project path.
#[derive(Debug)]
pub struct BackgroundRequest {
    pub kind: RequestKind,
    pub path: String,
}

/// Kind and path of each request.
pub open spec fn request_views(rs: Seq<BackgroundRequest>) -> Seq<(RequestKind, Seq<char>)> {
    rs.map_values(|r: BackgroundRequest| (r.kind, r.path@))
}

/// A one-line text field: its text and the cursor, counted in characters.
#[derive(Debug)]
pub struct TextInput {
    pub value: String,
    pub cursor: usize,
}

impl TextInput {
    /// An empty field.
    pub fn new() -> (r: Self)
        ensures
            r.value@ == Seq::<char>::empty(),
            r.cursor == 0,
    {
        TextInput { value: String::new(), cursor: 0 }
    }
}

/// The dashboard's state.
pub struct App {
    pub running: bool,
    pub confirm_delete_project: bool,
    pub show_help: bool,
    pub creating_project: bool,
    pub creating_project_in_background: bool,
    pub counter: u8,
    pub cursor: isize,
    pub target_cursor: isize,
    pub running_cursor: isize,
    pub ci_cursor: isize,
    pub targets: Vec<Target>,
    pub target_cache: PathMap<Vec<Target>>,
    pub metadata_cache: PathMap<ProjectMetadataSummary>,
    pub ci_runs_cache: PathMap<Option<CiRunsData>>,
    pub languages_cache: PathMap<Option<LanguagesData>>,
    pub git_status_cache: PathMap<String>,
    pub size_cache: PathMap<u64>,
    pub loading_metadata: PathSet,
    pub loading_git_statuses: PathSet,
    pub loading_sizes: PathSet,
    pub loading_ci_runs: PathSet,
    pub loading_languages: PathSet,
    pub loading_targets: PathSet,
    pub focus: Focus,
    pub filter_mode: bool,
    pub project_query: String,
    pub ci_query: String,
    pub target_query: String,
    pub project_input: TextInput,
    pub ci_input: TextInput,
    pub target_input: TextInput,
    pub create_project_input: TextInput,
    pub filtered_projects: Vec<usize>,
    pub filtered_ci_runs: Vec<usize>,
    pub filtered_targets: Vec<usize>,
    pub project_matcher: SearchMatcher<Project>,
    pub target_matcher: SearchMatcher<Target>,
    pub target_statuses: Vec<TargetStatus>,
    pub git_status_scan_index: usize,
    pub pending_g: bool,
    pub projects_root: String,
    pub projects: Vec<Project>,
    pub recent_projects: RecentProjects,
    pub bookmarked_projects: BookmarkedProjects,
    /// Background work asked for and not yet handed out.
    pub requests: Vec<BackgroundRequest>,
    /// The bookmarks changed and are to be saved.
    pub bookmarks_dirty: bool,
    /// The recently opened projects changed and are to be saved.
    pub recent_dirty: bool,
}

impl App {
    /// The matchers have their column counts, and the project and target
    /// listings agree with them (see `project_listing_ok` and
    /// `target_listing_ok`).
    pub open spec fn matchers_ok(&self) -> bool {
        &&& self.matcher_shapes_ok()
        &&& project_listing_ok(self.projects@, self.project_query@, self.project_matcher, self.filtered_projects@)
        &&& target_listing_ok(self.targets@, self.target_query@, self.target_matcher, self.filtered_targets@)
    }

    /// The matchers have their column counts and one query per column.
    pub open spec fn matcher_shapes_ok(&self) -> bool {
        &&& self.project_matcher.column_count() == PROJECT_SEARCH_COLUMNS
        &&& self.target_matcher.column_count() == TARGET_SEARCH_COLUMNS
        &&& self.project_matcher.queries().len() == PROJECT_SEARCH_COLUMNS
        &&& self.target_matcher.queries().len() == TARGET_SEARCH_COLUMNS
    }

    /// A state with no projects, targets or cached data, rooted at
    /// `projects_root`.
    pub fn empty(projects_root: String) -> (app: Self)
        ensures
            fresh(app, projects_root@),
            app.matchers_ok(),
            app.projects@.len() == 0,
            app.recent_projects.entries@ == Map::<Seq<char>, u64>::empty(),
            app.bookmarked_projects.entries@ == Set::<Seq<char>>::empty(),
    {
        let app = App {
            running: true,
            confirm_delete_project: false,
            show_help: false,
            creating_project: false,
            creating_project_in_background: false,
            counter: 0,
            cursor: -1isize,
            target_cursor: -1isize,
            running_cursor: -1isize,
            ci_cursor: -1isize,
            targets: Vec::new(),
            target_cache: PathMap::new(),
            metadata_cache: PathMap::new(),
            ci_runs_cache: PathMap::new(),
            languages_cache: PathMap::new(),
            git_status_cache: PathMap::new(),
            size_cache: PathMap::new(),
            loading_metadata: PathSet::new(),
            loading_git_statuses: PathSet::new(),
            loading_sizes: PathSet::new(),
            loading_ci_runs: PathSet::new(),
            loading_languages: PathSet::new(),
            loading_targets: PathSet::new(),
            focus: Focus::Projects,
            filter_mode: false,
            project_query: String::new(),
            ci_query: String::new(),
            target_query: String::new(),
            project_input: TextInput::new(),
            ci_input: TextInput::new(),
            target_input: TextInput::new(),
            create_project_input: TextInput::new(),
            filtered_projects: Vec::new(),
            filtered_ci_runs: Vec::new(),
            filtered_targets: Vec::new(),
            project_matcher: new_matcher(PROJECT_SEARCH_COLUMNS),
            target_matcher: new_matcher(TARGET_SEARCH_COLUMNS),
            target_statuses: Vec::new(),
            git_status_scan_index: 0,
            pending_g: false,
            projects_root,
            projects: Vec::new(),
            recent_projects: RecentProjects::default(),
            bookmarked_projects: BookmarkedProjects::default(),
            requests: Vec::new(),
            bookmarks_dirty: false,
            recent_dirty: false,
        };
        proof {
            filters::lemma_empty_listings(app.project_matcher, app.target_matcher);
            assert(app.projects@ =~= Seq::<Project>::empty());
            assert(app.targets@ =~= Seq::<Target>::empty());
            assert(app.filtered_projects@ =~= Seq::<usize>::empty());
            assert(app.filtered_targets@ =~= Seq::<usize>::empty());
            assert(app.project_query@ =~= Seq::<char>::empty());
            assert(app.target_query@ =~= Seq::<char>::empty());
        }
        app
    }

    /// Stops the main loop.
    pub fn quit(&mut self)
        ensures
            *final(self) == (App { running: false, ..*old(self) }),
    {
        self.running = false;
    }

    /// Counts up, saturating at 255.
    pub fn increment_counter(&mut self)
        ensures
            *final(self) == (App {
                counter: if old(self).counter == 255 {
                    255
                } else {
                    (old(self).counter + 1) as u8
                },
                ..*old(self)
            }),
    {
        self.counter = if self.counter == 255 {
            255
        } else {
            self.counter + 1
        };
    }

    /// Counts down, saturating at 0.
    pub fn decrement_counter(&mut self)
        ensures
            *final(self) == (App {
                counter: if old(self).counter == 0 {
                    0
                } else {
                    (old(self).counter - 1) as u8
                },
                ..*old(self)
            }),
    {
        self.counter = if self.counter == 0 {
            0
        } else {
            self.counter - 1
        };
    }
}

/// A state as the dashboard starts: running, with no dialog, search or
/// pending key, no cursor set, the projects pane focused, nothing cached,
/// loading, launched or asked for, every field and query empty, the matchers
/// holding no project and empty column queries, and rooted at `root`. Its
/// projects, recently opened and bookmarked projects are not constrained
/// here.
pub open spec fn fresh(app: App, root: Seq<char>) -> bool {
    &&& app.matcher_shapes_ok()
    &&& app.project_matcher.items().len() == 0
    &&& app.project_matcher.queries() == Seq::new(3, |c: int| Seq::<char>::empty())
    &&& app.target_matcher.queries() == Seq::new(4, |c: int| Seq::<char>::empty())
    &&& app.running
    &&& !app.confirm_delete_project && !app.show_help && !app.creating_project
    &&& !app.creating_project_in_background && !app.filter_mode && !app.pending_g
    &&& app.counter == 0
    &&& app.cursor == -1 && app.target_cursor == -1
    &&& app.running_cursor == -1 && app.ci_cursor == -1
    &&& app.focus == Focus::Projects
    &&& app.projects_root@ == root
    &&& app.targets@.len() == 0
    &&& app.filtered_projects@.len() == 0 && app.filtered_targets@.len() == 0
    &&& app.filtered_ci_runs@.len() == 0
    &&& app.target_statuses@.len() == 0 && app.requests@.len() == 0
    &&& app.project_query@.len() == 0 && app.ci_query@.len() == 0 && app.target_query@.len() == 0
    &&& app.project_input.value@.len() == 0 && app.project_input.cursor == 0
    &&& app.ci_input.value@.len() == 0 && app.ci_input.cursor == 0
    &&& app.target_input.value@.len() == 0 && app.target_input.cursor == 0
    &&& app.create_project_input.value@.len() == 0 && app.create_project_input.cursor == 0
    &&& app.target_cache@ == Map::<Seq<char>, Vec<Target>>::empty()
    &&& app.metadata_cache@ == Map::<Seq<char>, ProjectMetadataSummary>::empty()
    &&& app.ci_runs_cache@ == Map::<Seq<char>, Option<CiRunsData>>::empty()
    &&& app.languages_cache@ == Map::<Seq<char>, Option<LanguagesData>>::empty()
    &&& app.git_status_cache@ == Map::<Seq<char>, String>::empty()
    &&& app.size_cache@ == Map::<Seq<char>, u64>::empty()
    &&& app.loading_metadata@ == Set::<Seq<char>>::empty()
    &&& app.loading_git_statuses@ == Set::<Seq<char>>::empty()
    &&& app.loading_sizes@ == Set::<Seq<char>>::empty()
    &&& app.loading_ci_runs@ == Set::<Seq<char>>::empty()
    &&& app.loading_languages@ == Set::<Seq<char>>::empty()
    &&& app.loading_targets@ == Set::<Seq<char>>::empty()
    &&& app.git_status_scan_index == 0
    &&& !app.bookmarks_dirty && !app.recent_dirty
}

/// `cursor` kept inside a list of `len` rows: `-1` for an empty list.
pub open spec fn clamp_cursor(c: int, len: nat) -> int {
    if len == 0 {
        -1
    } else if c < 0 {
        0
    } else if c >= len {
        len - 1
    } else {
        c
    }
}

/// Every index of `s` is below `n`.
pub open spec fn indices_below(s: Seq<usize>, n: nat) -> bool {
    forall|i: int| 0 <= i < s.len() ==> #[trigger] s[i] < n
}

/// The item a cursor selects through a list of indices, if any.
pub open spec fn selected_index(cursor: int, filtered: Seq<usize>, len: nat) -> Option<int> {
    if 0 <= cursor < filtered.len() && filtered[cursor] < len {
        Some(filtered[cursor] as int)
    } else {
        None
    }
}

impl App {
    /// Index in `projects` of the selected project.
    pub open spec fn current_project_index(&self) -> Option<int> {
        selected_index(self.cursor as int, self.filtered_projects@, self.projects@.len())
    }

    /// Path of the selected project.
    pub open spec fn current_project_path(&self) -> Option<Seq<char>> {
        match self.current_project_index() {
            Some(i) => Some(self.projects@[i].path@),
            None => None,
        }
    }

    /// Index in `targets` of the selected target.
    pub open spec fn current_target_index(&self) -> Option<int> {
        selected_index(self.target_cursor as int, self.filtered_targets@, self.targets@.len())
    }

    /// CI runs of the selected project, when they were fetched and are not
    /// empty.
    pub open spec fn ci_runs_shown(&self) -> Option<CiRunsData> {
        match self.current_project_path() {
            Some(p) => if self.ci_runs_cache@.contains_key(p) {
                match self.ci_runs_cache@[p] {
                    Some(ci) => if ci.runs@.len() > 0 {
                        Some(ci)
                    } else {
                        None
                    },
                    None => None,
                }
            } else {
                None
            },
            None => None,
        }
    }

    /// Index in `target_statuses` of the selected running target.
    pub open spec fn current_running_index(&self) -> Option<int> {
        if 0 <= self.running_cursor < self.target_statuses@.len() {
            Some(self.running_cursor as int)
        } else {
            None
        }
    }

    /// Indices of the CI runs that the CI query keeps.
    pub open spec fn ci_filter_result(&self) -> Seq<usize> {
        match self.ci_runs_shown() {
            Some(ci) => ci_filtered(ci.runs@, ascii_lower(self.ci_query@)),
            None => Seq::empty(),
        }
    }
}

/// A CI run is kept by a lower-case query that is empty or that occurs in
/// its lower-cased branch, title, status or creation time.
pub open spec fn ci_run_matches(run: CiRun, q: Seq<char>) -> bool {
    q.len() == 0 || contains_seq(ascii_lower(run.branch@), q) || contains_seq(
        ascii_lower(run.title@),
        q,
    ) || contains_seq(ascii_lower(run.status@), q) || contains_seq(ascii_lower(run.created_at@), q)
}

/// Indices, in order, of the runs that `q` keeps.
pub open spec fn ci_filtered(runs: Seq<CiRun>, q: Seq<char>) -> Seq<usize>
    decreases runs.len(),
{
    if runs.len() == 0 {
        Seq::empty()
    } else if ci_run_matches(runs.last(), q) {
        ci_filtered(runs.drop_last(), q).push((runs.len() - 1) as usize)
    } else {
        ci_filtered(runs.drop_last(), q)
    }
}

/// Index of the first project at path `p`.
pub open spec fn first_at_path(ps: Seq<Project>, p: Seq<char>) -> Option<int>
    decreases ps.len(),
{
    if ps.len() == 0 {
        None
    } else {
        match first_at_path(ps.drop_last(), p) {
            Some(i) => Some(i),
            None => if ps.last().path@ == p {
                Some(ps.len() - 1)
            } else {
                None
            },
        }
    }
}

/// Indices of the projects at the matched paths, in match order; paths of no
/// project are skipped.
pub open spec fn project_positions(matched: Seq<Seq<char>>, ps: Seq<Project>) -> Seq<usize>
    decreases matched.len(),
{
    if matched.len() == 0 {
        Seq::empty()
    } else {
        match first_at_path(ps, matched.last()) {
            Some(i) => project_positions(matched.drop_last(), ps).push(i as usize),
            None => project_positions(matched.drop_last(), ps),
        }
    }
}

/// Kind, name and path of a target: what identifies it in the matcher.
pub open spec fn target_key(t: Target) -> (Seq<char>, Seq<char>, Seq<char>) {
    (t.kind@, t.name@, t.path@)
}

/// Index of the first target with the given kind, name and path.
pub open spec fn first_with_key(ts: Seq<Target>, k: (Seq<char>, Seq<char>, Seq<char>)) -> Option<int>
    decreases ts.len(),
{
    if ts.len() == 0 {
        None
    } else {
        match first_with_key(ts.drop_last(), k) {
            Some(i) => Some(i),
            None => if target_key(ts.last()) == k {
                Some(ts.len() - 1)
            } else {
                None
            },
        }
    }
}

/// Indices of the matched targets, in match order.
pub open spec fn target_positions(matched: Seq<(Seq<char>, Seq<char>, Seq<char>)>, ts: Seq<Target>) -> Seq<usize>
    decreases matched.len(),
{
    if matched.len() == 0 {
        Seq::empty()
    } else {
        match first_with_key(ts, matched.last()) {
            Some(i) => target_positions(matched.drop_last(), ts).push(i as usize),
            None => target_positions(matched.drop_last(), ts),
        }
    }
}

/// Kind, name and path of each matched target.
pub open spec fn key_views(ks: Seq<(String, String, String)>) -> Seq<(Seq<char>, Seq<char>, Seq<char>)> {
    ks.map_values(|k: (String, String, String)| (k.0@, k.1@, k.2@))
}

/// After the project list was filtered to `post.filtered_projects`: the
/// cursor is kept inside it, and an empty result also clears the targets.
/// Nothing else changes but the project matcher.
pub open spec fn projects_refiltered(pre: App, post: App) -> bool {
    &&& post.project_matcher.column_count() == pre.project_matcher.column_count()
    &&& post.project_matcher.queries().len() == pre.project_matcher.queries().len()
    &&& indices_below(post.filtered_projects@, pre.projects@.len())
    &&& if post.filtered_projects@.len() == 0 {
        &&& post == (App {
            filtered_projects: post.filtered_projects,
            project_matcher: post.project_matcher,
            cursor: -1isize,
            targets: post.targets,
            filtered_targets: post.filtered_targets,
            target_cursor: -1isize,
            ..pre
        })
        &&& post.targets@.len() == 0
        &&& post.filtered_targets@.len() == 0
    } else {
        post == (App {
            filtered_projects: post.filtered_projects,
            project_matcher: post.project_matcher,
            cursor: clamp_cursor(pre.cursor as int, post.filtered_projects@.len()) as isize,
            ..pre
        })
    }
}

/// After the target list was filtered to `post.filtered_targets`: the target
/// cursor is kept inside it. Nothing else changes but the target matcher.
pub open spec fn targets_refiltered(pre: App, post: App) -> bool {
    &&& post.target_matcher.column_count() == pre.target_matcher.column_count()
    &&& post.target_matcher.queries().len() == pre.target_matcher.queries().len()
    &&& indices_below(post.filtered_targets@, pre.targets@.len())
    &&& post == (App {
        filtered_targets: post.filtered_targets,
        target_matcher: post.target_matcher,
        target_cursor: clamp_cursor(pre.target_cursor as int, post.filtered_targets@.len()) as isize,
        ..pre
    })
}

/// After the CI filter ran: the kept runs of the selected project, both the
/// CI and the running cursor kept inside their lists.
pub open spec fn ci_refiltered(pre: App, post: App) -> bool {
    &&& post.filtered_ci_runs@ == pre.ci_filter_result()
    &&& post == (App {
        filtered_ci_runs: post.filtered_ci_runs,
        running_cursor: clamp_cursor(pre.running_cursor as int, pre.target_statuses@.len()) as isize,
        ci_cursor: clamp_cursor(pre.ci_cursor as int, pre.ci_filter_result().len()) as isize,
        ..pre
    })
}

/// After the targets of the selected project were brought up to date:
/// cached targets are shown and filtered, otherwise the list is empty and
/// the targets are asked for once; then the CI runs are filtered anew.
pub open spec fn targets_refreshed(pre: App, post: App) -> bool {
    match pre.current_project_path() {
        None => {
            &&& post == (App {
                targets: post.targets,
                filtered_targets: post.filtered_targets,
                target_cursor: -1isize,
                filtered_ci_runs: post.filtered_ci_runs,
                ci_cursor: -1isize,
                ..pre
            })
            &&& post.targets@.len() == 0
            &&& post.filtered_targets@.len() == 0
            &&& post.filtered_ci_runs@.len() == 0
        },
        Some(path) => {
            &&& post.filtered_ci_runs@ == pre.ci_filter_result()
            &&& post.running_cursor == clamp_cursor(pre.running_cursor as int, pre.target_statuses@.len())
            &&& post.ci_cursor == clamp_cursor(pre.ci_cursor as int, pre.ci_filter_result().len())
            &&& if pre.target_cache@.contains_key(path) {
                &&& post == (App {
                    targets: post.targets,
                    filtered_targets: post.filtered_targets,
                    target_cursor: post.target_cursor,
                    target_matcher: post.target_matcher,
                    filtered_ci_runs: post.filtered_ci_runs,
                    running_cursor: post.running_cursor,
                    ci_cursor: post.ci_cursor,
                    ..pre
                })
                &&& target_views(post.targets@) == target_views(pre.target_cache@[path]@)
                &&& post.target_matcher.column_count() == pre.target_matcher.column_count()
                &&& indices_below(post.filtered_targets@, post.targets@.len())
                &&& post.target_cursor == clamp_cursor(pre.target_cursor as int, post.filtered_targets@.len())
            } else {
                &&& post == (App {
                    targets: post.targets,
                    filtered_targets: post.filtered_targets,
                    target_cursor: -1isize,
                    loading_targets: post.loading_targets,
                    requests: post.requests,
                    filtered_ci_runs: post.filtered_ci_runs,
                    running_cursor: post.running_cursor,
                    ci_cursor: post.ci_cursor,
                    ..pre
                })
                &&& post.targets@.len() == 0
                &&& post.filtered_targets@.len() == 0
                &&& crate::app::background::asked(
                    pre.target_cache,
                    pre.loading_targets,
                    post.loading_targets,
                    pre.requests@,
                    post.requests@,
                    RequestKind::Targets,
                    path,
                )
            }
        },
    }
}

} // verus!
